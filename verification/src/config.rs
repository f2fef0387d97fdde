use vstd::prelude::*;

verus! {

/// The options a build script is built with. Each one changes what the
/// build units and the script driver do:
/// - `isolate`: every output goes under `./out/`;
/// - `mute_on_default`: new units start muted;
/// - `mute_self`: the unit that rebuilds the script is muted;
/// - `bootstrapped`: the script was built by itself, so it need not rebuild
///   itself first;
/// - `clean`: building a unit deletes its output instead;
/// - `run`: the script's command was `run` (or `clean`): it rebuilds itself
///   muted first, and `run` steps run their output;
/// - `unmute_on_fail`: a unit whose build failed runs its recipe again,
///   unmuted, to show what went wrong.
#[derive(Clone, Copy, Debug, PartialEq, Eq, Structural)]
pub struct BuildConfig {
    pub isolate: bool,
    pub mute_on_default: bool,
    pub mute_self: bool,
    pub bootstrapped: bool,
    pub clean: bool,
    pub run: bool,
    pub unmute_on_fail: bool,
}

impl BuildConfig {
    /// A build with none of the options.
    pub fn plain() -> (c: Self)
        ensures
            c == (BuildConfig {
                isolate: false,
                mute_on_default: false,
                mute_self: false,
                bootstrapped: false,
                clean: false,
                run: false,
                unmute_on_fail: false,
            }),
    {
        BuildConfig {
            isolate: false,
            mute_on_default: false,
            mute_self: false,
            bootstrapped: false,
            clean: false,
            run: false,
            unmute_on_fail: false,
        }
    }
}

impl Default for BuildConfig {
    /// A build with none of the options.
    fn default() -> (c: Self)
        ensures
            c == (BuildConfig {
                isolate: false,
                mute_on_default: false,
                mute_self: false,
                bootstrapped: false,
                clean: false,
                run: false,
                unmute_on_fail: false,
            }),
    {
        Self::plain()
    }
}

} // verus!
