use vstd::prelude::*;

use vstd::string::StrSliceExecFns;
use vstd::string::StringExecFns;

use crate::config::BuildConfig;
use crate::text::{copy_steps, owned_strings, same_text, steps_texts, str_texts, texts};

verus! {

/// A build unit: a file at `outpath`, the units it is made from, and the
/// commands (the recipe) that make it.
#[derive(Debug, PartialEq, Eq, Hash)]
pub struct Mcule {
    pub name: String,
    pub outpath: String,
    inputs: Vec<Mcule>,
    recipe: Vec<Vec<String>>,
    success: bool,
    status_chain: Vec<i32>,
    mute: bool,
}

/// What a `Mcule` holds, as mathematical values.
pub struct MculeView {
    pub name: Seq<char>,
    pub outpath: Seq<char>,
    pub inputs: Seq<Mcule>,
    pub recipe: Seq<Seq<Seq<char>>>,
    pub success: bool,
    pub status_chain: Seq<i32>,
    pub mute: bool,
}

impl View for Mcule {
    type V = MculeView;

    closed spec fn view(&self) -> MculeView {
        MculeView {
            name: self.name@,
            outpath: self.outpath@,
            inputs: self.inputs@,
            recipe: steps_texts(self.recipe@),
            success: self.success,
            status_chain: self.status_chain@,
            mute: self.mute,
        }
    }
}

impl Mcule {
    /// `self` and `other` hold the same values, inputs compared the same way.
    pub closed spec fn same(self, other: Mcule) -> bool
        decreases self,
    {
        &&& self@.name == other@.name
        &&& self@.outpath == other@.outpath
        &&& self@.recipe == other@.recipe
        &&& self@.success == other@.success
        &&& self@.status_chain == other@.status_chain
        &&& self@.mute == other@.mute
        &&& self.inputs@.len() == other.inputs@.len()
        &&& forall|i: int|
            #![trigger self.inputs@[i]]
            0 <= i < self.inputs@.len() ==> self.inputs@[i].same(other.inputs@[i])
    }

    /// The unit and all that it is made from, transitively, were made successfully.
    pub closed spec fn all_successful(self) -> bool
        decreases self,
    {
        &&& self.success
        &&& forall|i: int|
            #![trigger self.inputs@[i]]
            0 <= i < self.inputs@.len() ==> self.inputs@[i].all_successful()
    }
}

impl Clone for Mcule {
    /// A copy of the unit, with copies of its inputs.
    fn clone(&self) -> (res: Self)
        ensures
            res.same(*self),
        decreases self,
    {
        let mut inputs: Vec<Mcule> = Vec::new();
        let mut i: usize = 0;
        while i < self.inputs.len()
            invariant
                i <= self.inputs.len(),
                inputs@.len() == i,
                forall|j: int| 0 <= j < i ==> (#[trigger] inputs@[j]).same(self.inputs@[j]),
            decreases self.inputs.len() - i,
        {
            proof {
                vstd::std_specs::vec::axiom_vec_index_decreases(self.inputs, i as int);
            }
            let c = self.inputs[i].clone();
            inputs.push(c);
            i += 1;
        }
        let mut status_chain: Vec<i32> = Vec::new();
        let mut k: usize = 0;
        while k < self.status_chain.len()
            invariant
                k <= self.status_chain.len(),
                status_chain@ == self.status_chain@.subrange(0, k as int),
            decreases self.status_chain.len() - k,
        {
            status_chain.push(self.status_chain[k]);
            k += 1;
        }
        assert(self.status_chain@.subrange(0, self.status_chain@.len() as int) == self.status_chain@);
        Mcule {
            name: self.name.clone(),
            outpath: self.outpath.clone(),
            inputs,
            recipe: copy_steps(&self.recipe),
            success: self.success,
            status_chain,
            mute: self.mute,
        }
    }
}

/// Two units that are the same hold the same values, and as many inputs.
pub proof fn lemma_same_fields(a: Mcule, b: Mcule)
    requires
        a.same(b),
    ensures
        a@ == (MculeView { inputs: a@.inputs, ..b@ }),
        a@.inputs.len() == b@.inputs.len(),
        forall|i: int| 0 <= i < a@.inputs.len() ==> (#[trigger] a@.inputs[i]).same(b@.inputs[i]),
{
    assert forall|i: int| 0 <= i < a@.inputs.len() implies (#[trigger] a@.inputs[i]).same(
        b@.inputs[i],
    ) by {
        assert(a.inputs@[i] == a@.inputs[i]);
    }
}

/// Every unit is the same as itself.
pub proof fn law_same_reflexive(a: Mcule)
    ensures
        a.same(a),
    decreases a,
{
    assert forall|i: int| 0 <= i < a.inputs@.len() implies (#[trigger] a.inputs@[i]).same(
        a.inputs@[i],
    ) by {
        vstd::std_specs::vec::axiom_vec_index_decreases(a.inputs, i);
        law_same_reflexive(a.inputs@[i]);
    }
}

/// A unit counts as successful where it was made successfully and all that
/// it is made from counts as successful.
pub proof fn lemma_all_successful(m: Mcule)
    ensures
        m.all_successful() == (m@.success && forall|i: int|
            0 <= i < m@.inputs.len() ==> (#[trigger] m@.inputs[i]).all_successful()),
{
    assert(m@.inputs == m.inputs@);
    if m.all_successful() {
        assert forall|i: int| 0 <= i < m@.inputs.len() implies (#[trigger] m@.inputs[i]).all_successful() by {
            assert(m.inputs@[i] == m@.inputs[i]);
        }
    }
    if m@.success && forall|i: int|
        0 <= i < m@.inputs.len() ==> (#[trigger] m@.inputs[i]).all_successful() {
        assert forall|i: int| 0 <= i < m.inputs@.len() implies (#[trigger] m.inputs@[i]).all_successful() by {
            assert(m.inputs@[i] == m@.inputs[i]);
        }
    }
}

/// Being the same is symmetric.
pub proof fn law_same_symmetric(a: Mcule, b: Mcule)
    requires
        a.same(b),
    ensures
        b.same(a),
    decreases a,
{
    assert forall|i: int| 0 <= i < b.inputs@.len() implies (#[trigger] b.inputs@[i]).same(
        a.inputs@[i],
    ) by {
        assert(a.inputs@[i].same(b.inputs@[i]));
        vstd::std_specs::vec::axiom_vec_index_decreases(a.inputs, i);
        law_same_symmetric(a.inputs@[i], b.inputs@[i]);
    }
}

/// Being the same is transitive.
pub proof fn law_same_transitive(a: Mcule, b: Mcule, c: Mcule)
    requires
        a.same(b),
        b.same(c),
    ensures
        a.same(c),
    decreases a,
{
    assert forall|i: int| 0 <= i < a.inputs@.len() implies (#[trigger] a.inputs@[i]).same(
        c.inputs@[i],
    ) by {
        assert(a.inputs@[i].same(b.inputs@[i]));
        assert(b.inputs@[i].same(c.inputs@[i]));
        vstd::std_specs::vec::axiom_vec_index_decreases(a.inputs, i);
        law_same_transitive(a.inputs@[i], b.inputs@[i], c.inputs@[i]);
    }
}

/// A character in the ASCII range.
pub open spec fn is_ascii_char(c: char) -> bool {
    (c as u32) < 128
}

/// An output path made relative to the working directory: it is kept when it
/// already starts with `./`, and gets `./` put in front otherwise.
pub open spec fn dot_relative(p: Seq<char>) -> Seq<char> {
    if p.len() >= 2 && p[0] == '.' && p[1] == '/' {
        p
    } else {
        seq!['.', '/'] + p
    }
}

/// Where a new unit's output lies: under `./out/` in an isolated build,
/// otherwise the given path made relative.
pub open spec fn configured_outpath(config: BuildConfig, p: Seq<char>) -> Seq<char> {
    if config.isolate {
        seq!['.', '/', 'o', 'u', 't', '/'] + p
    } else {
        dot_relative(p)
    }
}

/// `after` is `before` with copies of `inputs` added after its own inputs.
pub open spec fn with_of(before: Mcule, inputs: Seq<Mcule>, after: Mcule) -> bool {
    &&& after@ == (MculeView { inputs: after@.inputs, ..before@ })
    &&& after@.inputs.len() == before@.inputs.len() + inputs.len()
    &&& after@.inputs.subrange(0, before@.inputs.len() as int) == before@.inputs
    &&& forall|j: int|
        0 <= j < inputs.len() ==> after@.inputs[before@.inputs.len() + j].same(
            #[trigger] inputs[j],
        )
}

/// Adding inputs in two steps gives the same unit as adding them all at
/// once, also when each starts from a copy of the unit.
pub proof fn law_with_concat(
    m: Mcule,
    c1: Mcule,
    c2: Mcule,
    a: Seq<Mcule>,
    b: Seq<Mcule>,
    r1: Mcule,
    r2: Mcule,
    s: Mcule,
)
    requires
        c1.same(m),
        c2.same(m),
        with_of(c1, a, r1),
        with_of(r1, b, r2),
        with_of(c2, a + b, s),
    ensures
        r2.same(s),
{
    lemma_same_fields(c1, m);
    lemma_same_fields(c2, m);
    let n = m@.inputs.len();
    assert(r2@.inputs.len() == s@.inputs.len());
    assert forall|i: int| 0 <= i < r2.inputs@.len() implies (#[trigger] r2.inputs@[i]).same(
        s.inputs@[i],
    ) by {
        assert(r2.inputs@[i] == r2@.inputs[i]);
        assert(s.inputs@[i] == s@.inputs[i]);
        if i < n {
            assert(r2@.inputs[i] == r2@.inputs.subrange(0, r1@.inputs.len() as int)[i]);
            assert(r1@.inputs[i] == r1@.inputs.subrange(0, n as int)[i]);
            assert(s@.inputs[i] == s@.inputs.subrange(0, n as int)[i]);
            assert(c1@.inputs[i].same(m@.inputs[i]));
            assert(c2@.inputs[i].same(m@.inputs[i]));
            law_same_symmetric(c2@.inputs[i], m@.inputs[i]);
            law_same_transitive(c1@.inputs[i], m@.inputs[i], c2@.inputs[i]);
        } else if i < n + a.len() {
            let j = i - n;
            assert(r2@.inputs[i] == r2@.inputs.subrange(0, r1@.inputs.len() as int)[i]);
            assert(r1@.inputs[n + j].same(a[j]));
            assert((a + b)[j] == a[j]);
            assert(s@.inputs[n + j].same((a + b)[j]));
            law_same_symmetric(s@.inputs[i], a[j]);
            law_same_transitive(r2@.inputs[i], a[j], s@.inputs[i]);
        } else {
            let j = i - n - a.len();
            assert(r2@.inputs[r1@.inputs.len() + j].same(b[j]));
            assert((a + b)[a.len() + j] == b[j]);
            assert(s@.inputs[n + (a.len() + j)].same((a + b)[a.len() + j]));
            law_same_symmetric(s@.inputs[i], b[j]);
            law_same_transitive(r2@.inputs[i], b[j], s@.inputs[i]);
        }
    }
}

/// An output path that `Mcule::new` takes: at least two characters, the
/// first two of them ASCII, and not absolute.
pub open spec fn valid_outpath(p: Seq<char>) -> bool {
    &&& p.len() >= 2
    &&& is_ascii_char(p[0])
    &&& is_ascii_char(p[1])
    &&& p[0] != '/'
}

/// A unit with the given name and output path and nothing else: no inputs,
/// no recipe, successful, not muted.
pub open spec fn plain_unit(name: Seq<char>, outpath: Seq<char>) -> MculeView {
    MculeView {
        name,
        outpath,
        inputs: Seq::empty(),
        recipe: Seq::empty(),
        success: true,
        status_chain: Seq::empty(),
        mute: false,
    }
}

/// A command line with each `$out` placeholder replaced by the output path.
pub open spec fn substituted(step: Seq<Seq<char>>, outpath: Seq<char>) -> Seq<Seq<char>> {
    step.map_values(|a: Seq<char>| if a == "$out"@ { outpath } else { a })
}

/// Every command of a recipe exited with status 0.
pub open spec fn all_zero(chain: Seq<i32>) -> bool {
    forall|i: int| 0 <= i < chain.len() ==> #[trigger] chain[i] == 0
}

/// The ages (time since the last modification) of an output and of its
/// inputs say that it is up to date: the output exists and no input was
/// modified after it.
pub open spec fn ages_up_to_date(own: Option<u128>, inputs: Seq<Option<u128>>) -> bool {
    &&& own is Some
    &&& forall|i: int|
        0 <= i < inputs.len() ==> (#[trigger] inputs[i] is Some && inputs[i]->0 >= own->0)
}

/// The ages say that the output must be made again: it is missing, or an
/// input was modified after it.
pub open spec fn ages_need_compile(own: Option<u128>, inputs: Seq<Option<u128>>) -> bool {
    ||| own is None
    ||| exists|i: int| 0 <= i < inputs.len() && #[trigger] inputs[i]->0 < own->0
}

/// While checking that a unit is up to date, the age of each input is read
/// until one turns out newer than the output: each age that is read exists.
pub open spec fn ages_readable(own: Option<u128>, inputs: Seq<Option<u128>>) -> bool {
    own is Some ==> forall|i: int|
        0 <= i < inputs.len() && (forall|j: int|
            0 <= j < i ==> (#[trigger] inputs[j] is Some && inputs[j]->0 >= own->0))
            ==> (#[trigger] inputs[i]) is Some
}

/// An output path made relative starts with `./`, and making it relative
/// again changes nothing.
pub proof fn law_dot_relative(p: Seq<char>)
    ensures
        dot_relative(p).len() >= 2,
        dot_relative(p)[0] == '.',
        dot_relative(p)[1] == '/',
        dot_relative(dot_relative(p)) == dot_relative(p),
        p.len() >= 2 && p[0] == '.' && p[1] == '/' ==> dot_relative(p) == p,
{
}

/// A path that does not start with `./` is kept whole behind `./`; one that
/// does is kept as it is. In an isolated build every path is kept whole
/// behind `./out/`.
pub proof fn law_outpath_kept_whole(config: BuildConfig, p: Seq<char>)
    ensures
        !(p.len() >= 2 && p[0] == '.' && p[1] == '/') ==> dot_relative(p) == seq!['.', '/'] + p,
        dot_relative(p).subrange(dot_relative(p).len() - p.len(), dot_relative(p).len() as int)
            == p,
        dot_relative(p).len() == p.len() || dot_relative(p).len() == p.len() + 2,
        config.isolate ==> configured_outpath(config, p) == seq!['.', '/', 'o', 'u', 't', '/']
            + p,
        !config.isolate ==> configured_outpath(config, p) == dot_relative(p),
{
    assert(dot_relative(p).subrange(dot_relative(p).len() - p.len(), dot_relative(p).len() as int)
        =~= p);
}

/// Each element of a command line that is exactly `$out`, wherever it
/// stands, becomes the output path; every other element is kept, and the
/// line keeps its length.
pub proof fn law_substituted_elements(step: Seq<Seq<char>>, outpath: Seq<char>)
    ensures
        substituted(step, outpath).len() == step.len(),
        forall|j: int|
            0 <= j < step.len() ==> (step[j] == "$out"@ ==> #[trigger] substituted(
                step,
                outpath,
            )[j] == outpath),
        forall|j: int|
            0 <= j < step.len() ==> (step[j] != "$out"@ ==> #[trigger] substituted(
                step,
                outpath,
            )[j] == step[j]),
{
}

/// An input modified after the output (a smaller age) means the unit is not
/// up to date and must be made again; so does a missing output. A unit that
/// is up to date has an output and every input at least as old as it.
pub proof fn law_newer_input_makes_stale(own: Option<u128>, inputs: Seq<Option<u128>>, i: int)
    ensures
        own is None ==> !ages_up_to_date(own, inputs) && ages_need_compile(own, inputs),
        own is Some && 0 <= i < inputs.len() && inputs[i] is Some && inputs[i]->0 < own->0
            ==> !ages_up_to_date(own, inputs) && ages_need_compile(own, inputs),
        ages_up_to_date(own, inputs) && 0 <= i < inputs.len() ==> inputs[i] is Some
            && inputs[i]->0 >= own->0,
        own is Some && (forall|k: int|
            0 <= k < inputs.len() ==> (#[trigger] inputs[k]) is Some && inputs[k]->0 >= own->0)
            ==> ages_up_to_date(own, inputs) && !ages_need_compile(own, inputs),
{
    if own is Some && 0 <= i < inputs.len() && inputs[i] is Some && inputs[i]->0 < own->0 {
        assert(inputs[i]->0 < own->0);
    }
    if ages_up_to_date(own, inputs) && 0 <= i < inputs.len() {
        assert(inputs[i] is Some && inputs[i]->0 >= own->0);
    }
    if own is Some && (forall|k: int|
        0 <= k < inputs.len() ==> (#[trigger] inputs[k]) is Some && inputs[k]->0 >= own->0) {
        assert forall|k: int| 0 <= k < inputs.len() implies !(#[trigger] inputs[k]->0 < own->0) by {
            assert(inputs[k] is Some && inputs[k]->0 >= own->0);
        }
    }
}

/// Any recorded status other than 0 fails the unit; a chain of zeros (or no
/// commands at all) does not.
pub proof fn law_nonzero_status_fails(chain: Seq<i32>, i: int)
    ensures
        0 <= i < chain.len() && chain[i] != 0 ==> !all_zero(chain),
        (forall|k: int| 0 <= k < chain.len() ==> chain[k] == 0) ==> all_zero(chain),
{
    if 0 <= i < chain.len() && chain[i] != 0 {
        assert(!(chain[i] == 0));
    }
}

/// After the statuses of a unit's commands are recorded, a status other than
/// 0 leaves the unit unsuccessful.
pub proof fn law_failed_command_fails_unit(before: Mcule, after: Mcule, chain: Seq<i32>, i: int)
    requires
        after@ == (MculeView { status_chain: chain, success: all_zero(chain), ..before@ }),
        0 <= i < chain.len(),
        chain[i] != 0,
    ensures
        !after.all_successful(),
        !after@.success,
{
    law_nonzero_status_fails(chain, i);
    lemma_all_successful(after);
}

/// The ages say that a unit must be made again exactly where they say it is
/// not up to date (where all of them could be read).
pub proof fn law_compile_when_stale(own: Option<u128>, inputs: Seq<Option<u128>>)
    requires
        forall|i: int| 0 <= i < inputs.len() ==> (#[trigger] inputs[i]) is Some,
    ensures
        ages_need_compile(own, inputs) == !ages_up_to_date(own, inputs),
{
    if own is Some && !ages_up_to_date(own, inputs) {
        let i = choose|i: int|
            0 <= i < inputs.len() && !(#[trigger] inputs[i] is Some && inputs[i]->0 >= own->0);
        assert(inputs[i]->0 < own->0);
    }
}

/// Whether a unit is up to date when each output path has the given age
/// (`None` where the file cannot be read): the ages read are those of the
/// unit's own output and of its direct inputs' outputs.
pub open spec fn up_to_date_on(m: Mcule, ages: spec_fn(Seq<char>) -> Option<u128>) -> bool {
    ages_up_to_date(ages(m@.outpath), m@.inputs.map_values(|i: Mcule| ages(i@.outpath)))
}

/// Only the unit's own output and its direct inputs' outputs decide whether
/// it is up to date: two units with the same output and inputs at the same
/// paths agree, whatever their inputs are made from.
pub proof fn law_up_to_date_direct_inputs(
    m: Mcule,
    m2: Mcule,
    ages: spec_fn(Seq<char>) -> Option<u128>,
)
    requires
        m@.outpath == m2@.outpath,
        m@.inputs.len() == m2@.inputs.len(),
        forall|i: int|
            0 <= i < m@.inputs.len() ==> (#[trigger] m@.inputs[i])@.outpath
                == m2@.inputs[i]@.outpath,
    ensures
        up_to_date_on(m, ages) == up_to_date_on(m2, ages),
{
    let a1 = m@.inputs.map_values(|i: Mcule| ages(i@.outpath));
    let a2 = m2@.inputs.map_values(|i: Mcule| ages(i@.outpath));
    assert forall|i: int| 0 <= i < a1.len() implies a1[i] == a2[i] by {
        assert(m@.inputs[i]@.outpath == m2@.inputs[i]@.outpath);
    }
    assert(a1 =~= a2);
}

/// The ages that `is_up_to_date` is given, read from the file system: the
/// result then is `up_to_date_on`.
pub proof fn lemma_up_to_date_on(
    m: Mcule,
    ages: spec_fn(Seq<char>) -> Option<u128>,
    own: Option<u128>,
    input_ages: Seq<Option<u128>>,
)
    requires
        own == ages(m@.outpath),
        input_ages == m@.inputs.map_values(|i: Mcule| ages(i@.outpath)),
    ensures
        ages_up_to_date(own, input_ages) == up_to_date_on(m, ages),
{
}

/// After the statuses of a unit's commands are recorded, the unit counts as
/// successful exactly where all of them were 0 and all that it is made from
/// counts as successful.
pub proof fn law_report_decides_success(before: Mcule, after: Mcule, chain: Seq<i32>)
    requires
        after@ == (MculeView { status_chain: chain, success: all_zero(chain), ..before@ }),
    ensures
        after.all_successful() == (all_zero(chain) && forall|i: int|
            0 <= i < before@.inputs.len() ==> (#[trigger] before@.inputs[i]).all_successful()),
{
}

impl Mcule {
    /// A unit made of the given parts.
    pub fn raw(
        name: String,
        outpath: String,
        inputs: Vec<Mcule>,
        recipe: Vec<Vec<String>>,
        success: bool,
        mute: bool,
        status_chain: Vec<i32>,
    ) -> (m: Self)
        ensures
            m@ == (MculeView {
                name: name@,
                outpath: outpath@,
                inputs: inputs@,
                recipe: steps_texts(recipe@),
                success,
                status_chain: status_chain@,
                mute,
            }),
    {
        Self { name, outpath, inputs, recipe, success, mute, status_chain }
    }

    /// A unit named `name` whose output lies at `outpath`, made relative with
    /// `./` in front where it does not start so; it has no inputs and no recipe
    /// yet. An absolute output path is refused (it would tie the build to one
    /// machine), so is one shorter than two characters. This is a unit of a
    /// build with none of the options (see `configured`).
    pub fn new(name: &str, outpath: &str) -> (m: Self)
        requires
            valid_outpath(outpath@),
        ensures
            m@ == plain_unit(name@, dot_relative(outpath@)),
    {
        Self::configured(&BuildConfig::plain(), name, outpath)
    }

    /// A new unit of a build with the given options: as `new`, except that
    /// in an isolated build the output goes under `./out/`, and that units
    /// start muted where the build mutes them by default.
    pub fn configured(config: &BuildConfig, name: &str, outpath: &str) -> (m: Self)
        requires
            valid_outpath(outpath@),
        ensures
            m@ == (MculeView {
                mute: config.mute_on_default,
                ..plain_unit(name@, configured_outpath(*config, outpath@))
            }),
    {
        let c0 = outpath.get_char(0);
        let c1 = outpath.get_char(1);
        let path = if config.isolate {
            let mut p = "./out/".to_owned();
            proof {
                reveal_strlit("./out/");
            }
            p.append(outpath);
            assert("./out/"@ =~= seq!['.', '/', 'o', 'u', 't', '/']);
            p
        } else if c0 == '.' && c1 == '/' {
            outpath.to_owned()
        } else {
            let mut p = "./".to_owned();
            proof {
                reveal_strlit("./");
            }
            p.append(outpath);
            assert("./"@ =~= seq!['.', '/']);
            p
        };
        assert(path@ == configured_outpath(*config, outpath@));
        let recipe: Vec<Vec<String>> = Vec::new();
        assert(steps_texts(recipe@) =~= Seq::empty());
        Self::raw(
            name.to_owned(),
            path,
            Vec::new(),
            recipe,
            true,
            config.mute_on_default,
            Vec::new(),
        )
    }

    /// The unit with copies of `inputs` added after its own inputs.
    pub fn with(self, inputs: &[Mcule]) -> (m: Self)
        ensures
            with_of(self, inputs@, m),
    {
        let mut unit = self;
        let ghost start = unit.inputs@;
        let ghost first = unit@;
        let mut i: usize = 0;
        while i < inputs.len()
            invariant
                i <= inputs@.len(),
                unit.inputs@.len() == start.len() + i,
                unit.inputs@.subrange(0, start.len() as int) == start,
                forall|j: int|
                    0 <= j < i ==> unit.inputs@[start.len() + j].same(#[trigger] inputs@[j]),
                unit@ == (MculeView { inputs: unit@.inputs, ..first }),
            decreases inputs@.len() - i,
        {
            let c = inputs[i].clone();
            unit.inputs.push(c);
            i += 1;
        }
        unit
    }

    /// The unit with one more command line in its recipe: `step`, with each
    /// `$out` replaced by the unit's output path.
    pub fn add_step(self, step: &[&str]) -> (m: Self)
        ensures
            m@ == (MculeView {
                recipe: self@.recipe.push(substituted(str_texts(step@), self@.outpath)),
                ..self@
            }),
    {
        let mut unit = self;
        let mut new_step: Vec<String> = Vec::new();
        let mut i: usize = 0;
        proof {
            reveal_strlit("$out");
        }
        while i < step.len()
            invariant
                i <= step@.len(),
                new_step@.len() == i,
                forall|j: int|
                    0 <= j < i ==> #[trigger] new_step@[j]@ == (if step@[j]@ == "$out"@ {
                        unit.outpath@
                    } else {
                        step@[j]@
                    }),
            decreases step@.len() - i,
        {
            if same_text(step[i], "$out") {
                new_step.push(unit.outpath.clone());
            } else {
                new_step.push(step[i].to_owned());
            }
            i += 1;
        }
        assert(texts(new_step@) =~= substituted(str_texts(step@), unit@.outpath));
        let ghost before = unit.recipe@;
        unit.recipe.push(new_step);
        assert(steps_texts(unit.recipe@) =~= steps_texts(before).push(texts(new_step@)));
        unit
    }

    /// Mutes the unit (its commands run without showing their output) and
    /// returns a copy of it.
    pub fn mute(&mut self) -> (m: Self)
        ensures
            final(self)@ == (MculeView { mute: true, ..old(self)@ }),
            m.same(*final(self)),
    {
        self.mute = true;
        self.clone()
    }

    /// Unmutes the unit and returns a copy of it.
    pub fn unmute(&mut self) -> (m: Self)
        ensures
            final(self)@ == (MculeView { mute: false, ..old(self)@ }),
            m.same(*final(self)),
    {
        self.mute = false;
        self.clone()
    }

    /// Whether the unit and everything it is made from, transitively, were
    /// made successfully.
    pub fn is_successful(&self) -> (b: bool)
        ensures
            b == self.all_successful(),
        decreases self,
    {
        let mut success = self.success;
        let mut i: usize = 0;
        while i < self.inputs.len()
            invariant
                i <= self.inputs@.len(),
                success == (self.success && forall|j: int|
                    0 <= j < i ==> (#[trigger] self.inputs@[j]).all_successful()),
            decreases self.inputs@.len() - i,
        {
            proof {
                vstd::std_specs::vec::axiom_vec_index_decreases(self.inputs, i as int);
            }
            if !self.inputs[i].is_successful() {
                success = false;
            }
            i += 1;
        }
        success
    }

    /// Records the exit statuses of the recipe's commands, as running them
    /// gave them, and whether all of them were 0; returns a copy of the unit.
    pub fn report_and_just_compile(&mut self, status_chain: Vec<i32>) -> (m: Self)
        ensures
            final(self)@ == (MculeView {
                status_chain: status_chain@,
                success: all_zero(status_chain@),
                ..old(self)@
            }),
            m.same(*final(self)),
    {
        let mut success = true;
        let mut i: usize = 0;
        while i < status_chain.len()
            invariant
                i <= status_chain@.len(),
                success == forall|j: int| 0 <= j < i ==> #[trigger] status_chain@[j] == 0,
            decreases status_chain@.len() - i,
        {
            if status_chain[i] != 0 {
                success = false;
            }
            i += 1;
        }
        self.status_chain = status_chain;
        self.success = success;
        self.clone()
    }

    /// Whether the unit is up to date, from the ages (time since the last
    /// modification, in nanoseconds) of its output and of its inputs' outputs:
    /// `None` where a file could not be read. The output must exist and no
    /// input may be newer than it. The inputs' ages are read in order until
    /// one is newer, and each of them that is read must exist.
    pub fn is_up_to_date(&self, own_age: Option<u128>, input_ages: &Vec<Option<u128>>) -> (b: bool)
        requires
            input_ages@.len() == self@.inputs.len(),
            ages_readable(own_age, input_ages@),
        ensures
            b == ages_up_to_date(own_age, input_ages@),
    {
        match own_age {
            Some(own) => {
                let mut i: usize = 0;
                while i < input_ages.len()
                    invariant
                        i <= input_ages@.len(),
                        own_age == Some(own),
                        ages_readable(own_age, input_ages@),
                        forall|j: int|
                            0 <= j < i ==> (#[trigger] input_ages@[j] is Some
                                && input_ages@[j]->0 >= own),
                    decreases input_ages@.len() - i,
                {
                    let age = match input_ages[i] {
                        Some(a) => a,
                        None => {
                            assert(false);
                            0
                        },
                    };
                    if age < own {
                        return false;
                    }
                    i += 1;
                }
                true
            },
            None => false,
        }
    }

    /// Whether the unit must be made again, from the same ages as
    /// `is_up_to_date`: its output is missing, or an input is newer. Where
    /// the output exists, the age of every input is read, and must exist.
    pub fn needs_compile(&self, own_age: Option<u128>, input_ages: &Vec<Option<u128>>) -> (b: bool)
        requires
            input_ages@.len() == self@.inputs.len(),
            own_age is Some ==> forall|i: int|
                0 <= i < input_ages@.len() ==> (#[trigger] input_ages@[i]) is Some,
        ensures
            b == ages_need_compile(own_age, input_ages@),
    {
        match own_age {
            Some(own) => {
                let mut need = false;
                let mut i: usize = 0;
                while i < input_ages.len()
                    invariant
                        i <= input_ages@.len(),
                        own_age == Some(own),
                        forall|k: int|
                            0 <= k < input_ages@.len() ==> (#[trigger] input_ages@[k]) is Some,
                        need == exists|j: int|
                            0 <= j < i && #[trigger] input_ages@[j]->0 < own,
                    decreases input_ages@.len() - i,
                {
                    let age = match input_ages[i] {
                        Some(a) => a,
                        None => 0,
                    };
                    if age < own {
                        need = true;
                    }
                    i += 1;
                }
                need
            },
            None => true,
        }
    }

    /// Where a build unmutes failed units: when the unit, or anything it is
    /// made from, failed, it is unmuted and true is returned, so that its
    /// recipe is run once more with its output shown; otherwise nothing changes.
    pub fn unmute_on_failure(&mut self, config: &BuildConfig) -> (rerun: bool)
        ensures
            rerun == (config.unmute_on_fail && !old(self).all_successful()),
            final(self)@ == (MculeView { mute: if rerun { false } else { old(self)@.mute }, ..old(self)@ }),
    {
        if config.unmute_on_fail && !self.is_successful() {
            self.mute = false;
            true
        } else {
            false
        }
    }

    /// The first step of building the unit. A cleaning build deletes the
    /// output of a unit that has a recipe and leaves other units alone. Any
    /// other build makes a unit whose output is missing, and otherwise first
    /// builds its inputs and compares their ages (see `needs_compile`).
    pub fn compile_first_step(&self, config: &BuildConfig, own_age: Option<u128>) -> (s: CompileStep)
        ensures
            config.clean && self@.recipe.len() == 0 ==> s == CompileStep::Skip,
            config.clean && self@.recipe.len() > 0 ==> s == CompileStep::Clean,
            !config.clean && own_age is None ==> s == CompileStep::Build,
            !config.clean && own_age is Some ==> s == CompileStep::VisitInputs,
    {
        if config.clean {
            if self.recipe.len() == 0 {
                CompileStep::Skip
            } else {
                CompileStep::Clean
            }
        } else if own_age.is_none() {
            CompileStep::Build
        } else {
            CompileStep::VisitInputs
        }
    }

    /// The unit's name.
    pub fn name(&self) -> (r: &str)
        ensures
            r@ == self@.name,
    {
        self.name.as_str()
    }

    /// Where the unit's output lies.
    pub fn outpath(&self) -> (r: &str)
        ensures
            r@ == self@.outpath,
    {
        self.outpath.as_str()
    }

    /// The units this one is made from.
    pub fn inputs(&self) -> (r: &Vec<Mcule>)
        ensures
            r@ == self@.inputs,
    {
        &self.inputs
    }

    /// The unit's recipe: one command line per step, program first.
    pub fn recipe(&self) -> (r: &Vec<Vec<String>>)
        ensures
            steps_texts(r@) == self@.recipe,
    {
        &self.recipe
    }

    /// Whether the unit's commands run muted.
    pub fn is_muted(&self) -> (r: bool)
        ensures
            r == self@.mute,
    {
        self.mute
    }
}

/// What building a unit does first.
#[derive(Clone, Copy, Debug, PartialEq, Eq, Structural)]
pub enum CompileStep {
    /// Nothing: the unit is left as it is.
    Skip,
    /// Delete the unit's output, where it is a file.
    Clean,
    /// Build the unit's inputs, then compare their ages with the output's.
    VisitInputs,
    /// Run the unit's recipe.
    Build,
}

/// How running one command of a recipe ended.
pub enum CommandOutcome {
    /// The command ran and exited with this status.
    Exited(i32),
    /// The command ran but was ended without an exit status (by a signal).
    NoExitCode,
    /// The command could not be started.
    NotStarted,
}

/// The status recorded for a muted command that ended without an exit status.
pub const MUTED_NO_CODE: i32 = -0x7999_9998i32;
/// The status recorded for a muted command that could not be started.
pub const MUTED_NOT_STARTED: i32 = -0x7999_9997i32;
/// The status recorded for an unmuted command that ended without an exit status.
pub const NO_CODE: i32 = -0x7999_9999i32;
/// The status recorded for an unmuted command that could not be started.
pub const NOT_STARTED: i32 = -0x8000_0000i32;

/// The status that a recipe records for one command: its exit status, or a
/// marker for a command that gave none, which tells muted and unmuted runs apart.
pub fn status_code(muted: bool, outcome: &CommandOutcome) -> (code: i32)
    ensures
        code == match *outcome {
            CommandOutcome::Exited(c) => c,
            CommandOutcome::NoExitCode => if muted { MUTED_NO_CODE } else { NO_CODE },
            CommandOutcome::NotStarted => if muted { MUTED_NOT_STARTED } else { NOT_STARTED },
        },
{
    match outcome {
        CommandOutcome::Exited(c) => *c,
        CommandOutcome::NoExitCode => if muted { MUTED_NO_CODE } else { NO_CODE },
        CommandOutcome::NotStarted => if muted { MUTED_NOT_STARTED } else { NOT_STARTED },
    }
}

impl From<&str> for Mcule {
    /// A unit for an existing file at `item`: no name, no inputs, no recipe.
    fn from(item: &str) -> (m: Self)
        ensures
            m@ == plain_unit(Seq::empty(), item@),
    {
        let recipe: Vec<Vec<String>> = Vec::new();
        assert(steps_texts(recipe@) =~= Seq::empty());
        let name = String::new();
        Self::raw(name, item.to_owned(), Vec::new(), recipe, true, false, Vec::new())
    }
}

impl From<String> for Mcule {
    /// A unit for an existing file at `item`: no name, no inputs, no recipe.
    fn from(item: String) -> (m: Self)
        ensures
            m@ == plain_unit(Seq::empty(), item@),
    {
        let recipe: Vec<Vec<String>> = Vec::new();
        assert(steps_texts(recipe@) =~= Seq::empty());
        let name = String::new();
        Self::raw(name, item, Vec::new(), recipe, true, false, Vec::new())
    }
}

/// `from` builds a unit whose strings are fresh, so it is stated over the
/// unit's view (see `from`'s own contract), not as an equality of values.
impl vstd::std_specs::convert::FromSpecImpl<&str> for Mcule {
    open spec fn obeys_from_spec() -> bool {
        false
    }

    open spec fn from_spec(v: &str) -> Mcule {
        choose|m: Mcule| m@ == plain_unit(Seq::empty(), v@)
    }
}

/// As for `&str`: stated over the unit's view in `from`'s own contract.
impl vstd::std_specs::convert::FromSpecImpl<String> for Mcule {
    open spec fn obeys_from_spec() -> bool {
        false
    }

    open spec fn from_spec(v: String) -> Mcule {
        choose|m: Mcule| m@ == plain_unit(Seq::empty(), v@)
    }
}

} // verus!