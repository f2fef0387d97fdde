use vstd::prelude::*;
use vstd::string::StringExecFns;

use crate::config::BuildConfig;
use crate::mcule::{configured_outpath, lemma_same_fields, plain_unit, substituted, valid_outpath, Mcule, MculeView};
use crate::text::{same_text, str_texts, texts};

verus! {

/// The driver of a build script: the script's settings and arguments, and
/// the unit that rebuilds the script itself from its source.
#[derive(Clone, Debug)]
pub struct Redoxri {
    settings: Vec<String>,
    pub args: Vec<String>,
    mcule: Mcule,
}

/// What a `Redoxri` holds, as mathematical values.
pub struct RedoxriView {
    pub settings: Seq<Seq<char>>,
    pub args: Seq<Seq<char>>,
    pub mcule: Mcule,
}

impl View for Redoxri {
    type V = RedoxriView;

    closed spec fn view(&self) -> RedoxriView {
        RedoxriView { settings: texts(self.settings@), args: texts(self.args@), mcule: self.mcule }
    }
}

/// The configuration flag that a command word of the build script turns on:
/// `rebuild`, `self`, `clean`, `get` and `run`; no other word turns one on.
pub open spec fn setting_for(word: Seq<char>) -> Option<Seq<char>> {
    if word == "rebuild"@ {
        Some("rebuild_all"@)
    } else if word == "self"@ {
        Some("self_build"@)
    } else if word == "clean"@ {
        Some("clean"@)
    } else if word == "get"@ {
        Some("get_pkgs"@)
    } else if word == "run"@ {
        Some("run"@)
    } else {
        None
    }
}

/// The texts that are not empty, in order.
pub open spec fn nonempty_texts(s: Seq<Seq<char>>) -> Seq<Seq<char>>
    decreases s.len(),
{
    if s.len() == 0 {
        Seq::empty()
    } else {
        let rest = nonempty_texts(s.drop_last());
        if s.last().len() > 0 {
            rest.push(s.last())
        } else {
            rest
        }
    }
}

/// The settings that are kept are the non-empty ones, in order and with
/// repeats: adding a non-empty setting adds it at the end, adding an empty
/// one changes nothing, and the result is the list filtered on being
/// non-empty.
pub proof fn law_nonempty_texts(s: Seq<Seq<char>>, t: Seq<char>)
    ensures
        t.len() > 0 ==> nonempty_texts(s.push(t)) == nonempty_texts(s).push(t),
        t.len() == 0 ==> nonempty_texts(s.push(t)) == nonempty_texts(s),
        nonempty_texts(s) == s.filter(|x: Seq<char>| x.len() > 0),
        nonempty_texts(s + s) == nonempty_texts(s) + nonempty_texts(s),
    decreases s.len(),
{
    assert(s.push(t).drop_last() =~= s);
    lemma_nonempty_is_filter(s);
    lemma_nonempty_concat(s, s);
}

proof fn lemma_nonempty_is_filter(s: Seq<Seq<char>>)
    ensures
        nonempty_texts(s) == s.filter(|x: Seq<char>| x.len() > 0),
    decreases s.len(),
{
    reveal_with_fuel(Seq::filter, 1);
    if s.len() > 0 {
        lemma_nonempty_is_filter(s.drop_last());
    }
}

proof fn lemma_nonempty_concat(a: Seq<Seq<char>>, b: Seq<Seq<char>>)
    ensures
        nonempty_texts(a + b) == nonempty_texts(a) + nonempty_texts(b),
    decreases b.len(),
{
    if b.len() == 0 {
        assert(a + b =~= a);
        assert(nonempty_texts(a) + nonempty_texts(b) =~= nonempty_texts(a));
    } else {
        lemma_nonempty_concat(a, b.drop_last());
        assert((a + b).drop_last() =~= a + b.drop_last());
        assert((a + b).last() == b.last());
        if b.last().len() > 0 {
            assert(nonempty_texts(a) + nonempty_texts(b.drop_last()).push(b.last()) =~= (
            nonempty_texts(a) + nonempty_texts(b.drop_last())).push(b.last()));
        }
    }
}

/// The configuration flags that the command word among the script's
/// arguments turns on, if there is one.
pub open spec fn word_settings(args: Seq<Seq<char>>) -> Seq<Seq<char>> {
    if args.len() > 1 && setting_for(args[1]) is Some {
        seq!["--cfg"@, setting_for(args[1])->0]
    } else {
        Seq::empty()
    }
}

/// The build script's source file: the program's path with `.rs` added.
pub open spec fn script_source(program: Seq<char>) -> Seq<char> {
    program + ".rs"@
}

/// The command line that rebuilds the build script with the given settings.
pub open spec fn rebuild_command(program: Seq<char>, settings: Seq<Seq<char>>) -> Seq<Seq<char>> {
    seq!["rustc"@, script_source(program), "--cfg"@, "bootstrapped"@] + settings
}

/// What the build script has to do about rebuilding itself.
#[derive(Clone, Copy, Debug, PartialEq, Eq, Structural)]
pub enum ScriptAction {
    /// The script is current: go on with the build.
    Proceed,
    /// Rebuild the script muted, run the new one, and end.
    ForceRebuild,
    /// The script's source changed: rebuild it, then run the new one and end.
    Rebuild,
}

impl Redoxri {
    /// Reads the command word in `args[1]`: where it is one of the script's
    /// commands, adds `--cfg` and the flag it turns on to `settings` and
    /// returns true; otherwise leaves `settings` as it is and returns false.
    pub fn parse_args_to_settings(args: &Vec<String>, settings: &mut Vec<String>) -> (r: bool)
        requires
            args@.len() > 1,
        ensures
            r == (setting_for(args@[1]@) is Some),
            r ==> texts(final(settings)@) == texts(old(settings)@) + seq![
                "--cfg"@,
                setting_for(args@[1]@)->0,
            ],
            !r ==> final(settings)@ == old(settings)@,
    {
        let word = args[1].as_str();
        let setting: Option<&str> = if same_text(word, "rebuild") {
            Some("rebuild_all")
        } else if same_text(word, "self") {
            Some("self_build")
        } else if same_text(word, "clean") {
            Some("clean")
        } else if same_text(word, "get") {
            Some("get_pkgs")
        } else if same_text(word, "run") {
            Some("run")
        } else {
            None
        };
        match setting {
            Some(s) => {
                let ghost before = settings@;
                settings.push("--cfg".to_owned());
                settings.push(s.to_owned());
                assert(texts(settings@) =~= texts(before) + seq!["--cfg"@, s@]);
                true
            },
            None => false,
        }
    }

    /// The driver for a build script run as `args` (the program's path
    /// first) with the given settings: the settings that are not empty, then
    /// the flag of the command word in `args[1]` if there is one; and a unit
    /// for the script that is made from its source `<program>.rs` and
    /// `redoxri.rs` by `rustc <program>.rs --cfg bootstrapped` followed by
    /// the settings. The unit is made as the build's options say (see
    /// `Mcule::configured`), and is muted where they mute the script's own
    /// unit. Also returns whether a command word was given, in which case the
    /// script is to be rebuilt whatever its state.
    pub fn from_args(config: &BuildConfig, in_settings: &[&str], args: Vec<String>) -> (r: (
        Redoxri,
        bool,
    ))
        requires
            args@.len() >= 1,
            valid_outpath(args@[0]@),
        ensures
            r.1 == (args@.len() > 1 && setting_for(args@[1]@) is Some),
            r.0@.args == texts(args@),
            r.0@.settings == nonempty_texts(str_texts(in_settings@)) + word_settings(texts(args@)),
            r.0@.mcule@ == (MculeView {
                inputs: r.0@.mcule@.inputs,
                recipe: seq![
                    substituted(
                        rebuild_command(args@[0]@, r.0@.settings),
                        configured_outpath(*config, args@[0]@),
                    ),
                ],
                mute: config.mute_on_default || config.mute_self,
                ..plain_unit("redoxri_script"@, configured_outpath(*config, args@[0]@))
            }),
            r.0@.mcule@.inputs.len() == 2,
            r.0@.mcule@.inputs[0]@ == plain_unit(Seq::empty(), script_source(args@[0]@)),
            r.0@.mcule@.inputs[1]@ == plain_unit(Seq::empty(), "redoxri.rs"@),
    {
        let mut main_file_name = args[0].clone();
        main_file_name.append(".rs");
        let mut settings: Vec<String> = Vec::new();
        let mut i: usize = 0;
        while i < in_settings.len()
            invariant
                i <= in_settings@.len(),
                texts(settings@) == nonempty_texts(str_texts(in_settings@).take(i as int)),
            decreases in_settings@.len() - i,
        {
            assert(str_texts(in_settings@).take(i + 1).drop_last() =~= str_texts(in_settings@).take(
                i as int,
            ));
            let ghost before = settings@;
            if !in_settings[i].is_empty() {
                settings.push(in_settings[i].to_owned());
                assert(texts(settings@) =~= texts(before).push(in_settings@[i as int]@));
            }
            i += 1;
        }
        assert(str_texts(in_settings@).take(in_settings@.len() as int) =~= str_texts(in_settings@));
        let ghost filtered = settings@;
        let mut force_compile = false;
        if args.len() > 1 {
            if Self::parse_args_to_settings(&args, &mut settings) {
                force_compile = true;
            }
        }
        assert(texts(settings@) =~= texts(filtered) + word_settings(texts(args@)));
        let mut compile_step: Vec<&str> = Vec::new();
        compile_step.push("rustc");
        compile_step.push(main_file_name.as_str());
        compile_step.push("--cfg");
        compile_step.push("bootstrapped");
        let mut k: usize = 0;
        while k < settings.len()
            invariant
                k <= settings@.len(),
                str_texts(compile_step@) == seq![
                    "rustc"@,
                    main_file_name@,
                    "--cfg"@,
                    "bootstrapped"@,
                ] + texts(settings@).take(k as int),
            decreases settings@.len() - k,
        {
            let ghost before = compile_step@;
            compile_step.push(settings[k].as_str());
            assert(texts(settings@).take(k + 1) =~= texts(settings@).take(k as int).push(
                settings@[k as int]@,
            ));
            assert(str_texts(compile_step@) =~= str_texts(before).push(settings@[k as int]@));
            k += 1;
        }
        assert(texts(settings@).take(settings@.len() as int) =~= texts(settings@));
        let source = Mcule::from(main_file_name.clone());
        let library = Mcule::from("redoxri.rs");
        let parts = [source, library];
        let mut mcule = Mcule::configured(config, "redoxri_script", args[0].as_str()).with(
            &parts,
        ).add_step(compile_step.as_slice());
        if config.mute_self {
            mcule.mute();
        }
        proof {
            assert(parts@[0]@ == plain_unit(Seq::empty(), script_source(args@[0]@)));
            lemma_same_fields(mcule@.inputs[0], parts@[0]);
            lemma_same_fields(mcule@.inputs[1], parts@[1]);
            assert(mcule@.inputs[0]@.inputs =~= Seq::empty());
            assert(mcule@.inputs[1]@.inputs =~= Seq::empty());
        }
        (Redoxri { settings, args, mcule }, force_compile)
    }

    /// The arguments the script was run with.
    pub fn args(&self) -> (a: &Vec<String>)
        ensures
            texts(a@) == self@.args,
    {
        &self.args
    }

    /// The unit that rebuilds the build script.
    pub fn mcule(&self) -> (m: &Mcule)
        ensures
            *m == self@.mcule,
    {
        &self.mcule
    }

    /// The unit that rebuilds the build script, to be changed.
    pub fn mcule_mut(&mut self) -> (m: &mut Mcule)
        ensures
            *m == old(self)@.mcule,
            final(self)@ == (RedoxriView { mcule: *final(m), ..old(self)@ }),
    {
        &mut self.mcule
    }
}

/// What the build script rebuilds itself as, before anything else: muted,
/// where its command is `clean` or `run`; then unmuted, where it was not
/// built by itself. Returns the two, in that order.
pub fn self_compile_prelude(config: &BuildConfig) -> (r: (bool, bool))
    ensures
        r == (config.clean || config.run, !config.bootstrapped),
{
    (config.clean || config.run, !config.bootstrapped)
}

/// What the build script then does about rebuilding itself: when a command
/// word asks for it, it is rebuilt whatever its state; otherwise, except in a
/// cleaning build, it is rebuilt when its source changed since it was last
/// built (`up_to_date` is only looked at then).
pub fn self_compile_action(config: &BuildConfig, always_compile: bool, up_to_date: bool) -> (a:
    ScriptAction)
    ensures
        always_compile ==> a == ScriptAction::ForceRebuild,
        !always_compile && !config.clean && !up_to_date ==> a == ScriptAction::Rebuild,
        !always_compile && (config.clean || up_to_date) ==> a == ScriptAction::Proceed,
{
    if always_compile {
        ScriptAction::ForceRebuild
    } else if !config.clean && !up_to_date {
        ScriptAction::Rebuild
    } else {
        ScriptAction::Proceed
    }
}

/// After the build script was rebuilt because a command word asked for it:
/// the new script is run, and the script ends with status 0.
pub fn forced_rebuild_exit() -> (r: (bool, i32))
    ensures
        r == (true, 0i32),
{
    (true, 0)
}

/// After the build script was rebuilt because its source changed: whether
/// to run the new script, and the status to end with (0 after running it,
/// 2 when the rebuild failed).
pub fn rebuild_exit(successful: bool) -> (r: (bool, i32))
    ensures
        successful ==> r == (true, 0i32),
        !successful ==> r == (false, 2i32),
{
    if successful {
        (true, 0)
    } else {
        (false, 2)
    }
}

} // verus!
