use vstd::prelude::*;

use crate::mcule::{plain_unit, Mcule, MculeView};
use crate::text::{copy_steps, owned_strings, steps_texts, str_texts, texts};

verus! {

/// A unit for a C source file and what it depends on.
pub struct CMcule {
    file: String,
    deps: (),
}

/// The kind of crate that a Rust unit builds.
#[derive(Clone, Copy, Debug, PartialEq, Eq, Structural)]
pub enum RustCrateType {
    ProcMacro,
    Bin,
    Lib,
    Rlib,
    Empty,
}

/// A unit that builds a Rust crate.
pub struct RustMcule {
    name: String,
    crate_type: RustCrateType,
    outpath: String,
    src: String,
    root: String,
    file: String,
    flags: Vec<String>,
    deps: Vec<Mcule>,
    pre_steps: Vec<Vec<String>>,
    post_steps: Vec<Vec<String>>,
}

/// What a `RustMcule` holds, as mathematical values.
pub struct RustMculeView {
    pub name: Seq<char>,
    pub crate_type: RustCrateType,
    pub outpath: Seq<char>,
    pub src: Seq<char>,
    pub root: Seq<char>,
    pub file: Seq<char>,
    pub flags: Seq<Seq<char>>,
    pub deps: Seq<Mcule>,
    pub pre_steps: Seq<Seq<Seq<char>>>,
    pub post_steps: Seq<Seq<Seq<char>>>,
}

impl View for RustMcule {
    type V = RustMculeView;

    closed spec fn view(&self) -> RustMculeView {
        RustMculeView {
            name: self.name@,
            crate_type: self.crate_type,
            outpath: self.outpath@,
            src: self.src@,
            root: self.root@,
            file: self.file@,
            flags: texts(self.flags@),
            deps: self.deps@,
            pre_steps: steps_texts(self.pre_steps@),
            post_steps: steps_texts(self.post_steps@),
        }
    }
}

impl RustMcule {
    /// A Rust unit never builds an empty crate: it starts as a library and
    /// can only be made a library or a binary.
    #[verifier::type_invariant]
    spec fn never_empty(self) -> bool {
        self.crate_type != RustCrateType::Empty
    }

    /// A library crate named `name` rooted at `root`, with its sources in
    /// `src/main.rs`, no flags, dependencies or extra steps.
    pub fn new(name: &str, root: &str) -> (m: Self)
        ensures
            m@ == (RustMculeView {
                name: name@,
                crate_type: RustCrateType::Lib,
                outpath: ""@,
                src: "src"@,
                root: root@,
                file: "main.rs"@,
                flags: Seq::empty(),
                deps: Seq::empty(),
                pre_steps: Seq::empty(),
                post_steps: Seq::empty(),
            }),
    {
        let flags: Vec<String> = Vec::new();
        let pre_steps: Vec<Vec<String>> = Vec::new();
        let post_steps: Vec<Vec<String>> = Vec::new();
        assert(texts(flags@) =~= Seq::empty());
        assert(steps_texts(pre_steps@) =~= Seq::empty());
        assert(steps_texts(post_steps@) =~= Seq::empty());
        Self {
            name: name.to_owned(),
            crate_type: RustCrateType::Lib,
            outpath: "".to_owned(),
            src: "src".to_owned(),
            root: root.to_owned(),
            file: "main.rs".to_owned(),
            deps: Vec::new(),
            flags,
            pre_steps,
            post_steps,
        }
    }

    /// The unit that the crate becomes; for now a plain unit with an empty
    /// output path.
    pub fn finish(&self) -> (m: Mcule)
        ensures
            m@ == plain_unit(Seq::empty(), ""@),
    {
        Mcule::from("")
    }

    /// Makes the crate a library (a Rust unit is never an empty crate, which
    /// could not be made one).
    pub fn make_lib(&mut self) -> (r: &mut Self)
        ensures
            (*r)@ == (RustMculeView { crate_type: RustCrateType::Lib, ..old(self)@ }),
            *final(self) == *final(r),
    {
        self.crate_type = RustCrateType::Lib;
        self
    }

    /// Makes the crate a binary (a Rust unit is never an empty crate, which
    /// could not be made one).
    pub fn make_bin(&mut self) -> (r: &mut Self)
        ensures
            (*r)@ == (RustMculeView { crate_type: RustCrateType::Bin, ..old(self)@ }),
            *final(self) == *final(r),
    {
        self.crate_type = RustCrateType::Bin;
        self
    }

    /// Sets the crate's root directory.
    pub fn set_root(&mut self, new_root: &str) -> (r: &mut Self)
        ensures
            (*r)@ == (RustMculeView { root: new_root@, ..old(self)@ }),
            *final(self) == *final(r),
    {
        proof {
            use_type_invariant(&*self);
        }
        self.root = new_root.to_owned();
        self
    }

    /// Sets the directory of the crate's sources.
    pub fn set_src(&mut self, new_src: &str) -> (r: &mut Self)
        ensures
            (*r)@ == (RustMculeView { src: new_src@, ..old(self)@ }),
            *final(self) == *final(r),
    {
        proof {
            use_type_invariant(&*self);
        }
        self.src = new_src.to_owned();
        self
    }

    /// Sets the crate's main source file.
    pub fn set_main(&mut self, new_main: &str) -> (r: &mut Self)
        ensures
            (*r)@ == (RustMculeView { file: new_main@, ..old(self)@ }),
            *final(self) == *final(r),
    {
        proof {
            use_type_invariant(&*self);
        }
        self.file = new_main.to_owned();
        self
    }

    /// The kind of crate the unit builds, which is never an empty crate.
    pub fn crate_type(&self) -> (t: RustCrateType)
        ensures
            t == self@.crate_type,
            t != RustCrateType::Empty,
    {
        proof {
            use_type_invariant(self);
        }
        self.crate_type
    }

    /// The crate's root directory.
    pub fn root(&self) -> (r: &str)
        ensures
            r@ == self@.root,
    {
        self.root.as_str()
    }

    /// The directory of the crate's sources.
    pub fn src(&self) -> (r: &str)
        ensures
            r@ == self@.src,
    {
        self.src.as_str()
    }

    /// The crate's main source file.
    pub fn main_file(&self) -> (r: &str)
        ensures
            r@ == self@.file,
    {
        self.file.as_str()
    }

    /// The command lines run before the crate is built.
    pub fn pre_steps(&self) -> (s: &Vec<Vec<String>>)
        ensures
            steps_texts(s@) == self@.pre_steps,
    {
        &self.pre_steps
    }

    /// Adds a command line to run before the crate is built.
    pub fn add_pre_step(&mut self, step: &[&str]) -> (r: &mut Self)
        ensures
            (*r)@ == (RustMculeView {
                pre_steps: old(self)@.pre_steps.push(str_texts(step@)),
                ..old(self)@
            }),
            *final(self) == *final(r),
    {
        proof {
            use_type_invariant(&*self);
        }
        let pre_step = owned_strings(step);
        let mut steps = copy_steps(&self.pre_steps);
        let ghost before = steps@;
        steps.push(pre_step);
        assert(steps_texts(steps@) =~= steps_texts(before).push(texts(pre_step@)));
        self.pre_steps = steps;
        self
    }
}

} // verus!
