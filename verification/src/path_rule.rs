//! The path lifecycle rule: partitions a directory listing into the paths to
//! delete, the paths to rename (highest generation first), and the live
//! instance, over a fixed generation sequence derived from the live path.

use vstd::prelude::*;
use vstd::seq_lib::*;
use vstd::string::StringExecFns;

use crate::byte_size::digit_char;

verus! {

/// The fixed upper bound on generations ever considered.
pub const MAX_NUM: usize = 10;

/// The `i`-th member of the generation sequence for live path `init`:
/// slot 0 is `init` itself, slot `i` appends `.i` to it.  Meaningful for
/// `i < 10`, where the suffix is a single digit.
pub open spec fn slot_path(init: Seq<char>, i: nat) -> Seq<char> {
    if i == 0 {
        init
    } else {
        init.push('.').push(digit_char(i))
    }
}

/// The views of a sequence of strings.
pub open spec fn path_views(v: Seq<String>) -> Seq<Seq<char>> {
    v.map_values(|s: String| s@)
}

/// Whether `p` is a delete candidate for `init` and `keep`: one of the slot
/// paths `keep-1..MAX_NUM`.
pub open spec fn is_delete_path(init: Seq<char>, keep: int, p: Seq<char>) -> bool {
    exists|i: nat| keep - 1 <= i < MAX_NUM && p == #[trigger] slot_path(init, i)
}

/// Whether `p` is a rename candidate for `init` and `keep`: one of the slot
/// paths `1..keep-1`.
pub open spec fn is_rename_path(init: Seq<char>, keep: int, p: Seq<char>) -> bool {
    exists|i: nat| 1 <= i < keep - 1 && p == #[trigger] slot_path(init, i)
}

/// The rename list: slot paths `from` down to 1, keeping those present in
/// `paths`, highest generation first.
pub open spec fn renames_desc(init: Seq<char>, paths: Seq<Seq<char>>, from: nat) -> Seq<Seq<char>>
    decreases from,
{
    if from == 0 {
        Seq::empty()
    } else {
        (if paths.contains(slot_path(init, from)) {
            seq![slot_path(init, from)]
        } else {
            Seq::empty()
        }) + renames_desc(init, paths, (from - 1) as nat)
    }
}

/// Distinct slots name distinct paths: slot 0 differs from the others in
/// length, and two suffixed slots differ in their final digit.
pub proof fn lemma_slot_path_injective(init: Seq<char>, i: nat, j: nat)
    requires
        i < 10,
        j < 10,
        slot_path(init, i) == slot_path(init, j),
    ensures
        i == j,
{
    if i == 0 && j != 0 {
        assert(slot_path(init, j).len() == init.len() + 2);
    } else if i != 0 && j == 0 {
        assert(slot_path(init, i).len() == init.len() + 2);
    } else if i != 0 && j != 0 && i != j {
        assert(slot_path(init, i).last() == digit_char(i));
        assert(slot_path(init, j).last() == digit_char(j));
    }
}

/// First-match successor lookup in a sequence of paths: the element after
/// the first occurrence of `path`, the last element having no successor.
pub open spec fn next_in(s: Seq<String>, path: Seq<char>) -> Option<Seq<char>>
    decreases s.len(),
{
    if s.len() <= 1 {
        None::<Seq<char>>
    } else if s[0]@ == path {
        Some(s[1]@)
    } else {
        next_in(s.drop_first(), path)
    }
}

proof fn lemma_next_in_slots_from(s: Seq<String>, init: Seq<char>, j: nat, k: nat)
    requires
        s.len() == MAX_NUM,
        forall|i: int| 0 <= i < MAX_NUM ==> #[trigger] s[i]@ == slot_path(init, i as nat),
        k <= j,
        j + 1 < MAX_NUM,
    ensures
        next_in(s.skip(k as int), slot_path(init, j)) == Some(slot_path(init, (j + 1) as nat)),
    decreases j - k,
{
    let ss = s.skip(k as int);
    assert(ss[0] == s[k as int]);
    if k == j {
        assert(ss[1] == s[k + 1 as int]);
    } else {
        if slot_path(init, k) == slot_path(init, j) {
            lemma_slot_path_injective(init, k, j);
        }
        assert(ss.drop_first() =~= s.skip(k as int + 1));
        lemma_next_in_slots_from(s, init, j, (k + 1) as nat);
    }
}

/// In the full generation sequence, the successor of slot `j` is slot
/// `j + 1`, for every slot below the last.
pub proof fn lemma_next_in_slots(s: Seq<String>, init: Seq<char>, j: nat)
    requires
        s.len() == MAX_NUM,
        forall|i: int| 0 <= i < MAX_NUM ==> #[trigger] s[i]@ == slot_path(init, i as nat),
        j + 1 < MAX_NUM,
    ensures
        next_in(s, slot_path(init, j)) == Some(slot_path(init, (j + 1) as nat)),
{
    assert(s.skip(0) =~= s);
    lemma_next_in_slots_from(s, init, j, 0);
}

/// Every member of the rename list is a rename-slot path taken from the
/// listing.
pub proof fn lemma_renames_desc_elems(init: Seq<char>, paths: Seq<Seq<char>>, from: nat)
    requires
        from < MAX_NUM,
    ensures
        forall|x: Seq<char>|
            #[trigger] renames_desc(init, paths, from).contains(x) ==> paths.contains(x)
                && is_rename_path(init, (from + 2) as int, x),
    decreases from,
{
    if from != 0 {
        lemma_renames_desc_elems(init, paths, (from - 1) as nat);
        let l = renames_desc(init, paths, from);
        let rest = renames_desc(init, paths, (from - 1) as nat);
        assert forall|x: Seq<char>| #[trigger]
            l.contains(x) implies paths.contains(x) && is_rename_path(init, (from + 2) as int, x) by {
            let w = choose|w: int| 0 <= w < l.len() && l[w] == x;
            if paths.contains(slot_path(init, from)) {
                if w == 0 {
                    assert(x == slot_path(init, from));
                } else {
                    assert(rest[w - 1] == x);
                    assert(rest.contains(x));
                }
            } else {
                assert(l =~= rest);
                assert(rest[w] == x);
                assert(rest.contains(x));
            }
        }
    }
}

/// Membership in a filtered sequence.
pub proof fn lemma_filter_membership<A>(s: Seq<A>, pred: spec_fn(A) -> bool)
    ensures
        forall|x: A| #[trigger] s.filter(pred).contains(x) <==> (s.contains(x) && pred(x)),
    decreases s.len(),
{
    reveal(Seq::filter);
    if s.len() != 0 {
        let t = s.drop_last();
        lemma_filter_membership(t, pred);
        assert forall|x: A| #[trigger]
            s.filter(pred).contains(x) <==> (s.contains(x) && pred(x)) by {
            if t.contains(x) {
                let w = choose|w: int| 0 <= w < t.len() && t[w] == x;
                assert(s[w] == x);
                assert(s.contains(x));
            }
            if x == s.last() {
                assert(s[s.len() - 1] == x);
                assert(s.contains(x));
            }
            if s.contains(x) && x != s.last() {
                let w = choose|w: int| 0 <= w < s.len() && s[w] == x;
                assert(t[w] == x);
                assert(t.contains(x));
            }
            if t.filter(pred).contains(x) {
                let w = choose|w: int| 0 <= w < t.filter(pred).len() && t.filter(pred)[w] == x;
                assert(s.filter(pred).contains(x)) by {
                    if pred(s.last()) {
                        assert(s.filter(pred)[w] == x);
                    } else {
                        assert(s.filter(pred)[w] == x);
                    }
                }
            }
            if s.filter(pred).contains(x) && !(t.filter(pred).contains(x)) {
                let w = choose|w: int| 0 <= w < s.filter(pred).len() && s.filter(pred)[w] == x;
                if pred(s.last()) && w == s.filter(pred).len() - 1 {
                } else {
                    assert(t.filter(pred)[w] == x);
                    assert(t.filter(pred).contains(x));
                }
            }
        }
    }
}

/// Filtering keeps a duplicate-free sequence duplicate-free.
pub proof fn lemma_filter_no_duplicates<A>(s: Seq<A>, pred: spec_fn(A) -> bool)
    requires
        s.no_duplicates(),
    ensures
        s.filter(pred).no_duplicates(),
    decreases s.len(),
{
    reveal(Seq::filter);
    if s.len() != 0 {
        let t = s.drop_last();
        assert(t.no_duplicates());
        lemma_filter_no_duplicates(t, pred);
        lemma_filter_membership(t, pred);
        if pred(s.last()) {
            assert(!t.contains(s.last())) by {
                if t.contains(s.last()) {
                    let w = choose|w: int| 0 <= w < t.len() && t[w] == s.last();
                    assert(s[w] == s[s.len() - 1]);
                }
            }
            let f = t.filter(pred).push(s.last());
            assert(s.filter(pred) == f);
            assert forall|i: int, j: int|
                0 <= i < f.len() && 0 <= j < f.len() && i != j implies f[i] != f[j] by {
                if i < f.len() - 1 && j == f.len() - 1 {
                    assert(t.filter(pred).contains(f[i]));
                }
                if j < f.len() - 1 && i == f.len() - 1 {
                    assert(t.filter(pred).contains(f[j]));
                }
            }
        }
    }
}

/// The rename list never repeats a path: its members are distinct slots.
pub proof fn lemma_renames_desc_no_duplicates(init: Seq<char>, paths: Seq<Seq<char>>, from: nat)
    requires
        from < MAX_NUM,
    ensures
        renames_desc(init, paths, from).no_duplicates(),
    decreases from,
{
    if from != 0 {
        lemma_renames_desc_no_duplicates(init, paths, (from - 1) as nat);
        lemma_renames_desc_elems(init, paths, (from - 1) as nat);
        let l = renames_desc(init, paths, from);
        let rest = renames_desc(init, paths, (from - 1) as nat);
        if paths.contains(slot_path(init, from)) {
            assert(!rest.contains(slot_path(init, from))) by {
                if rest.contains(slot_path(init, from)) {
                    let i = choose|i: nat|
                        1 <= i < from && slot_path(init, from) == #[trigger] slot_path(init, i);
                    lemma_slot_path_injective(init, from, i);
                }
            }
            assert forall|i: int, j: int|
                0 <= i < l.len() && 0 <= j < l.len() && i != j implies l[i] != l[j] by {
                if i == 0 && j > 0 {
                    assert(l[j] == rest[j - 1]);
                    assert(rest.contains(rest[j - 1]));
                }
                if j == 0 && i > 0 {
                    assert(l[i] == rest[i - 1]);
                    assert(rest.contains(rest[i - 1]));
                }
            }
        } else {
            assert(l =~= rest);
        }
    }
}

/// A path lifecycle rule: what to delete, what to rename (in application
/// order), the live instance if present, and the generation successor of a
/// path.
pub trait PathRule {
    spec fn spec_deletes(&self) -> Seq<Seq<char>>;

    spec fn spec_renames(&self) -> Seq<Seq<char>>;

    spec fn spec_init(&self) -> Option<Seq<char>>;

    spec fn spec_next(&self, path: Seq<char>) -> Option<Seq<char>>;

    /// Existing paths to remove, applied before any rename.
    fn delete_paths(&self) -> (r: &Vec<String>)
        ensures
            path_views(r@) == self.spec_deletes(),
    ;

    /// Existing paths to rename, in application order.
    fn rename_paths(&self) -> (r: &Vec<String>)
        ensures
            path_views(r@) == self.spec_renames(),
    ;

    /// The live instance, when the live path exists.
    fn init_path(&self) -> (r: Option<String>)
        ensures
            match r {
                Some(p) => self.spec_init() == Some(p@),
                None => self.spec_init() is None,
            },
    ;

    /// The generation successor of `path`, if `path` is a sequence member
    /// with a successor.
    fn next_path(&self, path: &str) -> (r: Option<String>)
        ensures
            match r {
                Some(p) => self.spec_next(path@) == Some(p@),
                None => self.spec_next(path@) is None,
            },
    ;
}

/// The default lifecycle rule: rename slots are `1..keep-1`, delete slots
/// are `keep-1..MAX_NUM`, and the rename list is ordered highest generation
/// first so that no rename overwrites a path a later rename still needs to
/// vacate.
pub struct DefaultRule {
    /// The full generation sequence, slot 0 first.
    pub set: Vec<String>,
    /// Existing delete candidates, in directory-listing order.
    pub deletes: Vec<String>,
    /// Existing rename candidates, highest generation first.
    pub renames: Vec<String>,
    /// The live instance, when present in the listing.
    pub init_opt: Option<String>,
}

fn build_slot_path(init: &String, i: usize) -> (r: String)
    requires
        1 <= i < 10,
    ensures
        r@ == slot_path(init@, i as nat),
{
    let mut s = init.clone();
    s.append(".");
    let d = crate::byte_size::usize_to_string(i);
    s.append(d.as_str());
    proof {
        reveal_strlit(".");
        assert(s@ =~= slot_path(init@, i as nat));
    }
    s
}

fn matches_slot_range(
    set: &Vec<String>,
    init: &String,
    lo: usize,
    hi: usize,
    p: &String,
) -> (r: bool)
    requires
        lo >= 1,
        lo <= hi,
        hi <= MAX_NUM,
        set@.len() == MAX_NUM,
        forall|i: int| 0 <= i < MAX_NUM ==> set@[i]@ == slot_path(init@, i as nat),
    ensures
        r == exists|i: nat| lo <= i < hi && p@ == #[trigger] slot_path(init@, i),
{
    let mut i = lo;
    while i < hi
        invariant
            lo <= i <= hi,
            forall|k: nat| lo <= k < i ==> p@ != #[trigger] slot_path(init@, k),
        decreases hi - i,
    {
        if *p == set[i] {
            return true;
        }
        i += 1;
    }
    false
}

impl DefaultRule {
    /// Builds the rule from the live path, the directory listing, and the
    /// retention count.  The delete list keeps the listing's order; the
    /// rename list is ordered highest generation first.
    pub fn new(init: String, paths: Vec<String>, keep: usize) -> (r: DefaultRule)
        requires
            2 <= keep < MAX_NUM,
        ensures
            r.set@.len() == MAX_NUM,
            forall|i: int| 0 <= i < MAX_NUM ==> r.set@[i]@ == slot_path(init@, i as nat),
            path_views(r.deletes@) == path_views(paths@).filter(
                |p: Seq<char>| is_delete_path(init@, keep as int, p),
            ),
            path_views(r.renames@) == renames_desc(init@, path_views(paths@), (keep - 2) as nat),
            (r.init_opt is Some <==> path_views(paths@).contains(init@)),
            path_views(paths@).no_duplicates() ==> path_views(r.deletes@).no_duplicates(),
            path_views(r.renames@).no_duplicates(),
            match r.init_opt {
                Some(p) => p@ == init@,
                None => true,
            },
    {
        let ghost pred = |p: Seq<char>| is_delete_path(init@, keep as int, p);
        let mut set: Vec<String> = Vec::new();
        set.push(init.clone());
        let mut i: usize = 1;
        while i < MAX_NUM
            invariant
                1 <= i <= MAX_NUM,
                set@.len() == i,
                forall|k: int| 0 <= k < i ==> set@[k]@ == slot_path(init@, k as nat),
            decreases MAX_NUM - i,
        {
            set.push(build_slot_path(&init, i));
            i += 1;
        }

        let mut deletes: Vec<String> = Vec::new();
        let mut init_opt: Option<String> = None;
        let mut j: usize = 0;
        while j < paths.len()
            invariant
                j <= paths@.len(),
                path_views(deletes@) == path_views(paths@.take(j as int)).filter(pred),
                (init_opt is Some <==> path_views(paths@.take(j as int)).contains(init@)),
                match init_opt {
                    Some(p) => p@ == init@,
                    None => true,
                },
            decreases paths@.len() - j,
        {
            let ghost prefix = path_views(paths@.take(j as int));
            let ghost extended = path_views(paths@.take(j + 1 as int));
            proof {
                assert(extended.drop_last() =~= prefix);
                assert(extended.last() == paths@[j as int]@);
                reveal(Seq::filter);
            }
            if matches_slot_range(&set, &init, keep - 1, MAX_NUM, &paths[j]) {
                deletes.push(paths[j].clone());
                proof {
                    assert(path_views(deletes@) =~= extended.filter(pred));
                }
            } else {
                proof {
                    assert(path_views(deletes@) =~= extended.filter(pred));
                }
            }
            if paths[j] == init {
                init_opt = Some(paths[j].clone());
            }
            proof {
                if path_views(paths@.take(j + 1 as int)).contains(init@) {
                    if !prefix.contains(init@) && paths@[j as int]@ != init@ {
                        let w = choose|w: int|
                            0 <= w < extended.len() && extended[w] == init@;
                        assert(prefix[w] == init@);
                    }
                }
                if init_opt is Some {
                    assert(extended[extended.len() - 1] == paths@[j as int]@ || prefix.contains(
                        init@,
                    ));
                }
            }
            j += 1;
        }
        proof {
            assert(paths@.take(paths@.len() as int) =~= paths@);
        }

        let mut renames: Vec<String> = Vec::new();
        let mut k: usize = keep - 2;
        while k >= 1
            invariant
                0 <= k <= keep - 2,
                renames@.len() <= keep - 2 - k,
                path_views(renames@) + renames_desc(init@, path_views(paths@), k as nat)
                    == renames_desc(init@, path_views(paths@), (keep - 2) as nat),
            decreases k,
        {
            let ghost before = path_views(renames@);
            if contains_string(&paths, &set[k]) {
                renames.push(build_slot_path(&init, k));
                proof {
                    assert(path_views(renames@) =~= before + seq![slot_path(init@, k as nat)]);
                    assert(path_views(renames@) + renames_desc(
                        init@,
                        path_views(paths@),
                        (k - 1) as nat,
                    ) =~= before + renames_desc(init@, path_views(paths@), k as nat));
                }
            } else {
                proof {
                    assert(path_views(renames@) + renames_desc(
                        init@,
                        path_views(paths@),
                        (k - 1) as nat,
                    ) =~= before + renames_desc(init@, path_views(paths@), k as nat));
                }
            }
            k -= 1;
        }
        proof {
            assert(path_views(renames@) + renames_desc(init@, path_views(paths@), 0) =~=
            path_views(renames@));
            if path_views(paths@).no_duplicates() {
                lemma_filter_no_duplicates(path_views(paths@), pred);
            }
            lemma_renames_desc_no_duplicates(init@, path_views(paths@), (keep - 2) as nat);
        }

        DefaultRule { set, deletes, renames, init_opt }
    }
}

fn contains_string(v: &Vec<String>, s: &String) -> (r: bool)
    ensures
        r == path_views(v@).contains(s@),
{
    let mut i: usize = 0;
    while i < v.len()
        invariant
            i <= v@.len(),
            forall|k: int| 0 <= k < i ==> #[trigger] v@[k]@ != s@,
        decreases v@.len() - i,
    {
        if v[i] == *s {
            proof {
                assert(path_views(v@)[i as int] == s@);
            }
            return true;
        }
        i += 1;
    }
    proof {
        if path_views(v@).contains(s@) {
            let w = choose|w: int| 0 <= w < v@.len() && path_views(v@)[w] == s@;
            assert(v@[w]@ == s@);
        }
    }
    false
}

impl PathRule for DefaultRule {
    open spec fn spec_deletes(&self) -> Seq<Seq<char>> {
        path_views(self.deletes@)
    }

    open spec fn spec_renames(&self) -> Seq<Seq<char>> {
        path_views(self.renames@)
    }

    open spec fn spec_init(&self) -> Option<Seq<char>> {
        match self.init_opt {
            Some(p) => Some(p@),
            None => None,
        }
    }

    open spec fn spec_next(&self, path: Seq<char>) -> Option<Seq<char>> {
        next_in(self.set@, path)
    }

    fn delete_paths(&self) -> (r: &Vec<String>) {
        &self.deletes
    }

    fn rename_paths(&self) -> (r: &Vec<String>) {
        &self.renames
    }

    fn init_path(&self) -> (r: Option<String>) {
        match &self.init_opt {
            Some(p) => Some(p.clone()),
            None => None,
        }
    }

    fn next_path(&self, path: &str) -> (r: Option<String>) {
        let owned = path.to_owned();
        let n = self.set.len();
        let mut i: usize = 0;
        if n == 0 {
            return None;
        }
        proof {
            assert(self.set@.skip(0) =~= self.set@);
        }
        while i < n - 1
            invariant
                0 <= i <= n - 1,
                n == self.set@.len(),
                n >= 1,
                owned@ == path@,
                next_in(self.set@, path@) == next_in(self.set@.skip(i as int), path@),
            decreases n - i,
        {
            proof {
                assert(self.set@.skip(i as int).drop_first() =~= self.set@.skip(i + 1 as int));
                assert(self.set@.skip(i as int)[0] == self.set@[i as int]);
                assert(self.set@.skip(i as int).len() == n - i);
            }
            if self.set[i] == owned {
                proof {
                    assert(self.set@.skip(i as int)[1] == self.set@[i + 1 as int]);
                }
                return Some(self.set[i + 1].clone());
            }
            i += 1;
        }
        proof {
            assert(self.set@.skip(i as int).len() <= 1);
        }
        None
    }
}

} // verus!
