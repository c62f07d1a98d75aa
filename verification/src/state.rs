//! The license state of the process.

use crate::text;
use vstd::prelude::*;

verus! {

/// What the build of the program fixes.
pub struct Build {
    /// Whether it is for WebAssembly, where no license is required.
    pub wasm32: bool,
    /// Whether it trusts development tokens.
    pub development: bool,
    /// Whether native code generation is available.
    pub native_code_generation: bool,
    /// The version of Symbolica.
    pub version: String,
    /// The version of the package, which is sent to the license server.
    pub package_version: String,
}

/// What a [`Build`] stands for.
pub struct BuildView {
    /// Whether it is for WebAssembly.
    pub wasm32: bool,
    /// Whether it trusts development tokens.
    pub development: bool,
    /// Whether native code generation is available.
    pub native_code_generation: bool,
    /// The version of Symbolica.
    pub version: Seq<char>,
    /// The version of the package.
    pub package_version: Seq<char>,
}

impl View for Build {
    type V = BuildView;

    open spec fn view(&self) -> BuildView {
        BuildView {
            wasm32: self.wasm32,
            development: self.development,
            native_code_generation: self.native_code_generation,
            version: self.version@,
            package_version: self.package_version@,
        }
    }
}

impl Clone for Build {
    fn clone(&self) -> (r: Self)
        ensures
            r@ == self@,
    {
        Build {
            wasm32: self.wasm32,
            development: self.development,
            native_code_generation: self.native_code_generation,
            version: self.version.as_str().to_owned(),
            package_version: self.package_version.as_str().to_owned(),
        }
    }
}

/// Work that is to run in the background.
pub enum Job {
    /// Tell the license server that the program runs without a key.
    Announce,
    /// Ask the license server about an offline key that was accepted.
    CheckOffline(String),
    /// Ask the license server about the license of a library unlock.
    CheckUnlock(String),
}

/// What a [`Job`] stands for.
pub enum JobView {
    /// Tell the license server that the program runs without a key.
    Announce,
    /// Ask the license server about an offline key that was accepted.
    CheckOffline(Seq<char>),
    /// Ask the license server about the license of a library unlock.
    CheckUnlock(Seq<char>),
}

impl View for Job {
    type V = JobView;

    open spec fn view(&self) -> JobView {
        match self {
            Job::Announce => JobView::Announce,
            Job::CheckOffline(key) => JobView::CheckOffline(key@),
            Job::CheckUnlock(license) => JobView::CheckUnlock(license@),
        }
    }
}

impl Clone for Job {
    fn clone(&self) -> (r: Self)
        ensures
            r@ == self@,
    {
        match self {
            Job::Announce => Job::Announce,
            Job::CheckOffline(key) => Job::CheckOffline(key.as_str().to_owned()),
            Job::CheckUnlock(license) => Job::CheckUnlock(license.as_str().to_owned()),
        }
    }
}

/// What a list of jobs stands for.
pub open spec fn job_views(jobs: Seq<Job>) -> Seq<JobView> {
    jobs.map_values(|job: Job| job@)
}

/// The licenses of library unlocks that were checked, each once per process id.
pub struct CheckedLicenses {
    entries: Vec<(u32, String)>,
}

impl View for CheckedLicenses {
    type V = Set<(u32, Seq<char>)>;

    closed spec fn view(&self) -> Set<(u32, Seq<char>)> {
        Set::new(
            |e: (u32, Seq<char>)|
                exists|i: int|
                    0 <= i < self.entries@.len() && (#[trigger] self.entries@[i]).0 == e.0
                        && self.entries@[i].1@ == e.1,
        )
    }
}

impl Clone for CheckedLicenses {
    fn clone(&self) -> (r: Self)
        ensures
            r@ == self@,
    {
        proof {
            use_type_invariant(self);
        }
        let mut entries: Vec<(u32, String)> = Vec::new();
        let mut i: usize = 0;
        while i < self.entries.len()
            invariant
                i <= self.entries@.len(),
                entries@.len() == i,
                forall|j: int|
                    0 <= j < i ==> (#[trigger] entries@[j]).0 == self.entries@[j].0
                        && entries@[j].1@ == self.entries@[j].1@,
            decreases self.entries.len() - i,
        {
            entries.push((self.entries[i].0, self.entries[i].1.as_str().to_owned()));
            i += 1;
        }
        let r = CheckedLicenses { entries };
        proof {
            assert forall|e: (u32, Seq<char>)| r@.contains(e) == self@.contains(e) by {
                if r@.contains(e) {
                    let k = choose|k: int|
                        0 <= k < r.entries@.len() && (#[trigger] r.entries@[k]).0 == e.0
                            && r.entries@[k].1@ == e.1;
                    assert(self.entries@[k].0 == e.0);
                }
                if self@.contains(e) {
                    let k = choose|k: int|
                        0 <= k < self.entries@.len() && (#[trigger] self.entries@[k]).0 == e.0
                            && self.entries@[k].1@ == e.1;
                    assert(r.entries@[k].0 == e.0);
                }
            }
            assert(r@ =~= self@);
        }
        r
    }
}

impl CheckedLicenses {
    /// Whether no entry occurs twice.
    #[verifier::type_invariant]
    closed spec fn distinct(self) -> bool {
        forall|i: int, j: int|
            0 <= i < j < self.entries@.len() ==> (#[trigger] self.entries@[i]).0 != (
            #[trigger] self.entries@[j]).0 || self.entries@[i].1@ != self.entries@[j].1@
    }

    /// None checked yet.
    pub fn new() -> (r: Self)
        ensures
            r@ == Set::<(u32, Seq<char>)>::empty(),
    {
        let r = CheckedLicenses { entries: Vec::new() };
        assert(r@ =~= Set::<(u32, Seq<char>)>::empty());
        r
    }

    /// Notes a license and says whether it was not noted before.
    pub fn insert(&mut self, pid: u32, license: &str) -> (r: bool)
        ensures
            r == !old(self)@.contains((pid, license@)),
            final(self)@ == old(self)@.insert((pid, license@)),
    {
        proof {
            use_type_invariant(&*self);
        }
        let mut i: usize = 0;
        while i < self.entries.len()
            invariant
                i <= self.entries@.len(),
                *self == *old(self),
                forall|j: int|
                    0 <= j < i ==> (#[trigger] self.entries@[j]).0 != pid || self.entries@[j].1@
                        != license@,
            decreases self.entries.len() - i,
        {
            if self.entries[i].0 == pid && text::same_text(self.entries[i].1.as_str(), license) {
                proof {
                    assert(self.entries@[i as int].0 == pid);
                    assert(self@.contains((pid, license@)));
                    assert(self@ =~= self@.insert((pid, license@)));
                }
                return false;
            }
            i += 1;
        }
        let ghost before = self.entries@;
        let mut entries: Vec<(u32, String)> = Vec::new();
        std::mem::swap(&mut entries, &mut self.entries);
        entries.push((pid, license.to_owned()));
        let ghost now = entries@;
        proof {
            assert forall|k: int, j: int| 0 <= k < j < now.len() implies (#[trigger] now[k]).0 != (
            #[trigger] now[j]).0 || now[k].1@ != now[j].1@ by {
                assert(now[k] == before[k]);
                if j < before.len() {
                    assert(now[j] == before[j]);
                }
            }
        }
        self.entries = entries;
        proof {
            let added = (pid, license@);
            assert forall|e: (u32, Seq<char>)| self@.contains(e) == old(self)@.insert(
                added,
            ).contains(e) by {
                if old(self)@.contains(e) {
                    let k = choose|k: int|
                        0 <= k < before.len() && (#[trigger] before[k]).0 == e.0 && before[k].1@
                            == e.1;
                    assert(now[k] == before[k]);
                }
                if e == added {
                    assert(now[before.len() as int].0 == e.0);
                }
                if self@.contains(e) && e != added {
                    let k = choose|k: int|
                        0 <= k < now.len() && (#[trigger] now[k]).0 == e.0 && now[k].1@ == e.1;
                    assert(before[k] == now[k]);
                }
            }
            assert(self@ =~= old(self)@.insert(added));
        }
        true
    }
}

} // verus!
