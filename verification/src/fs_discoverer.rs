//! Bookkeeping of the filesystem module discoverer: the executables declared
//! by `module.json` files, accepted only when they stay inside the
//! extensions root.
//!
//! Walking the directory tree, reading and parsing the files and
//! canonicalising paths are the caller's part.
use vstd::prelude::*;
use crate::text::{owned, str_eq, chars_of, split_chars, views_of, split_seq, pair_get, pair_set, str_pairs_view, find_str_pair, set_str_pair, lemma_first_index, first_index};

verus! {

/// The file name the discoverer looks for.
pub const MODULE_JSON_FILENAME: &'static str = "module.json";

/// The non-empty `/`-separated components of a path.
pub open spec fn components(p: Seq<char>) -> Seq<Seq<char>> {
    split_seq(p, '/').filter(|c: Seq<char>| c.len() > 0)
}

/// Whether `p` lies under `base`, comparing whole components (for
/// canonical paths, which hold no `.` or `..` components).
pub open spec fn path_under(p: Seq<char>, base: Seq<char>) -> bool {
    components(base).len() <= components(p).len() && components(p).take(
        components(base).len() as int,
    ) == components(base) && (base.len() > 0 && base[0] == '/' <==> p.len() > 0 && p[0] == '/')
}

fn non_empty_components(p: &str) -> (r: Vec<Vec<char>>)
    ensures
        views_of(r@) == components(p@),
{
    let pieces = split_chars(&chars_of(p), '/');
    let ghost pv = views_of(pieces@);
    let ghost pred = |c: Seq<char>| c.len() > 0;
    let mut out: Vec<Vec<char>> = Vec::new();
    let mut i: usize = 0;
    proof {
        reveal(Seq::filter);
        assert(pv.take(0).filter(pred) =~= Seq::<Seq<char>>::empty());
        assert(views_of(out@) =~= Seq::<Seq<char>>::empty());
    }
    while i < pieces.len()
        invariant
            0 <= i <= pieces.len(),
            pv == views_of(pieces@),
            pv == split_seq(p@, '/'),
            pred == (|c: Seq<char>| c.len() > 0),
            views_of(out@) == pv.take(i as int).filter(pred),
        decreases pieces.len() - i,
    {
        proof {
            assert(pv.take(i + 1) =~= pv.take(i as int).push(pv[i as int]));
            pv.take(i as int).lemma_filter_push(pv[i as int], pred);
        }
        if pieces[i].len() > 0 {
            let ghost prev = out@;
            out.push(crate::text::copy_chars(&pieces[i]));
            assert(views_of(out@) =~= views_of(prev).push(pv[i as int]));
        }
        i = i + 1;
    }
    assert(pv.take(pieces.len() as int) =~= pv);
    out
}

/// Whether the canonical executable path stays inside the canonical root.
pub fn executable_is_safe(exec_canon: &str, root_canon: &str) -> (r: bool)
    ensures
        r == path_under(exec_canon@, root_canon@),
{
    let pc = non_empty_components(exec_canon);
    let bc = non_empty_components(root_canon);
    let ghost pv = views_of(pc@);
    let ghost bv = views_of(bc@);
    let ec = chars_of(exec_canon);
    let rc = chars_of(root_canon);
    let p_abs = ec.len() > 0 && ec[0] == '/';
    let b_abs = rc.len() > 0 && rc[0] == '/';
    if p_abs != b_abs {
        return false;
    }
    if bc.len() > pc.len() {
        return false;
    }
    let mut i: usize = 0;
    while i < bc.len()
        invariant
            bc.len() <= pc.len(),
            0 <= i <= bc.len(),
            pv == views_of(pc@),
            bv == views_of(bc@),
            pv == components(exec_canon@),
            bv == components(root_canon@),
            (rc@.len() > 0 && rc@[0] == '/') == (ec@.len() > 0 && ec@[0] == '/'),
            ec@ == exec_canon@,
            rc@ == root_canon@,
            forall|k: int| 0 <= k < i ==> #[trigger] pv[k] == bv[k],
        decreases bc.len() - i,
    {
        if !crate::text::chars_eq(&pc[i], &bc[i]) {
            assert(pv.take(bv.len() as int)[i as int] != bv[i as int]);
            return false;
        }
        i = i + 1;
    }
    assert(pv.take(bv.len() as int) =~= bv);
    true
}

/// The discoverer's state: its root, the root in canonical form once the
/// caller has resolved it, and the executables found so far (module name →
/// canonical path).
pub struct FsDiscoverer {
    root: String,
    root_canon: Option<String>,
    executables: Vec<(String, String)>,
}

impl FsDiscoverer {
    /// A discoverer rooted at `root` with no executables yet.
    pub fn new(root: String) -> (r: Self)
        ensures
            r.root_spec() == root@,
            r.root_canon_spec() is None,
            r.executables_spec() == Seq::<(Seq<char>, Seq<char>)>::empty(),
            r.contained(),
    {
        let r = FsDiscoverer { root, root_canon: None, executables: Vec::new() };
        assert(str_pairs_view(r.executables@) =~= Seq::<(Seq<char>, Seq<char>)>::empty());
        r
    }

    pub closed spec fn root_spec(&self) -> Seq<char> {
        self.root@
    }

    pub closed spec fn root_canon_spec(&self) -> Option<Seq<char>> {
        match self.root_canon {
            Some(c) => Some(c@),
            None => None,
        }
    }

    pub closed spec fn executables_spec(&self) -> Seq<(Seq<char>, Seq<char>)> {
        str_pairs_view(self.executables@)
    }

    /// Every recorded executable lies inside the canonical root.
    pub open spec fn contained(&self) -> bool {
        forall|i: int|
            0 <= i < self.executables_spec().len() ==> self.root_canon_spec() is Some && path_under(
                #[trigger] self.executables_spec()[i].1,
                self.root_canon_spec()->0,
            )
    }

    /// The root directory.
    pub fn root(&self) -> (r: &str)
        ensures
            r@ == self.root_spec(),
    {
        self.root.as_str()
    }

    /// The canonical form of the root, once fixed.
    pub fn canonical_root(&self) -> (r: Option<&str>)
        ensures
            match r {
                Some(c) => self.root_canon_spec() == Some(c@),
                None => self.root_canon_spec() is None,
            },
    {
        match &self.root_canon {
            Some(c) => Some(c.as_str()),
            None => None,
        }
    }

    /// Fix the canonical form of the root, against which every executable
    /// is checked; done once, before discovery.
    pub fn set_canonical_root(&mut self, canon: String)
        requires
            old(self).root_canon_spec() is None,
            old(self).contained(),
        ensures
            final(self).root_canon_spec() == Some(canon@),
            final(self).root_spec() == old(self).root_spec(),
            final(self).executables_spec() == old(self).executables_spec(),
            final(self).contained(),
    {
        assert(old(self).executables_spec().len() == 0) by {
            if old(self).executables_spec().len() > 0 {
                let e = old(self).executables_spec()[0].1;
                assert(old(self).root_canon_spec() is Some);
            }
        }
        self.root_canon = Some(canon);
    }

    /// The executable recorded for a module, if any; it lies inside the
    /// canonical root.
    pub fn get_executable(&self, module_name: &str) -> (r: Option<String>)
        ensures
            match r {
                Some(p) => pair_get(self.executables_spec(), module_name@) == Some(p@),
                None => pair_get(self.executables_spec(), module_name@) is None,
            },
            self.contained() ==> (r matches Some(p) ==> self.root_canon_spec() is Some && path_under(
                p@,
                self.root_canon_spec()->0,
            )),
    {
        proof {
            lemma_first_index(str_pairs_view(self.executables@), module_name@);
        }
        match find_str_pair(&self.executables, module_name) {
            Some(i) => {
                proof {
                    assert(self.executables_spec()[i as int].1 == self.executables@[i as int].1@);
                }
                Some(self.executables[i].1.clone())
            },
            None => None,
        }
    }

    /// All executables recorded so far.
    pub fn executables_snapshot(&self) -> (r: Vec<(String, String)>)
        ensures
            str_pairs_view(r@) == self.executables_spec(),
    {
        let mut out: Vec<(String, String)> = Vec::new();
        let mut i: usize = 0;
        while i < self.executables.len()
            invariant
                0 <= i <= self.executables.len(),
                str_pairs_view(out@) == str_pairs_view(self.executables@).take(i as int),
            decreases self.executables.len() - i,
        {
            let ghost prev = out@;
            let k = self.executables[i].0.clone();
            let v = self.executables[i].1.clone();
            out.push((k, v));
            assert(out@ == prev.push((k, v)));
            assert(str_pairs_view(out@) =~= str_pairs_view(prev).push((k@, v@)));
            assert(str_pairs_view(self.executables@).take(i + 1) =~= str_pairs_view(self.executables@).take(i as int).push(str_pairs_view(self.executables@)[i as int]));
            i = i + 1;
        }
        assert(str_pairs_view(self.executables@).take(i as int) =~= str_pairs_view(self.executables@));
        out
    }

    /// Record the executable of a module when its canonical path lies inside
    /// the canonical root; says whether it was recorded. Nothing is recorded
    /// before the canonical root is known.
    pub fn record_executable(&mut self, module_name: String, exec_canon: String) -> (r: bool)
        ensures
            r == (old(self).root_canon_spec() is Some && path_under(exec_canon@, old(self).root_canon_spec()->0)),
            r ==> final(self).executables_spec() == pair_set(old(self).executables_spec(), module_name@, exec_canon@),
            !r ==> final(self).executables_spec() == old(self).executables_spec(),
            final(self).root_spec() == old(self).root_spec(),
            final(self).root_canon_spec() == old(self).root_canon_spec(),
            old(self).contained() ==> final(self).contained(),
    {
        let safe = match &self.root_canon {
            Some(rc) => executable_is_safe(exec_canon.as_str(), rc.as_str()),
            None => false,
        };
        if safe {
            let ghost before = self.executables_spec();
            let ghost k = module_name@;
            let ghost v = exec_canon@;
            set_str_pair(&mut self.executables, module_name, exec_canon);
            proof {
                lemma_first_index(before, k);
                let after = self.executables_spec();
                assert forall|i: int| 0 <= i < after.len() implies after[i] == (k, v) || (exists|j: int| 0 <= j < before.len() && after[i] == #[trigger] before[j]) by {
                    match first_index(before, k) {
                        Some(m) => {
                            if i != m {
                                assert(after[i] == before[i]);
                            }
                        },
                        None => {
                            if i < before.len() {
                                assert(after[i] == before[i]);
                            }
                        },
                    }
                }
            }
            true
        } else {
            false
        }
    }
}

} // verus!
