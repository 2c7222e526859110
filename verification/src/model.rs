//! A path-level model of one rotation.  The directory is a map from path to
//! content; the delete, rename and migrate phases are functions on that map.
//! The laws proved here say what one rotation does to a populated chain, that
//! a steady-state chain keeps its shape, that grooming proceeds without a
//! live instance, and that applying the rule's delete and rename lists in
//! their given order realises exactly the model -- in particular, renaming
//! highest generation first never overwrites a path a later rename needs.

use vstd::prelude::*;
use vstd::map::*;
use vstd::seq_lib::*;

use crate::path_rule::{
    slot_path, is_delete_path, renames_desc, lemma_slot_path_injective, lemma_filter_membership,
    MAX_NUM,
};

verus! {

/// Whether `p` is a member of the generation sequence of `init`.
pub open spec fn is_slot(init: Seq<char>, p: Seq<char>) -> bool {
    exists|i: nat| i < MAX_NUM && p == #[trigger] slot_path(init, i)
}

/// The set of delete-slot paths.
pub open spec fn delete_slots(init: Seq<char>, keep: int) -> Set<Seq<char>> {
    Set::new(|p: Seq<char>| is_delete_path(init, keep, p))
}

/// Delete phase: every delete-slot path leaves the directory.
pub open spec fn delete_phase<C>(d: Map<Seq<char>, C>, init: Seq<char>, keep: int) -> Map<
    Seq<char>,
    C,
> {
    d.remove_keys(delete_slots(init, keep))
}

/// One rename step: slot `i`, when present, moves onto slot `i + 1`.
pub open spec fn rename_one<C>(d: Map<Seq<char>, C>, init: Seq<char>, i: nat) -> Map<Seq<char>, C> {
    if d.dom().contains(slot_path(init, i)) {
        d.remove(slot_path(init, i)).insert(slot_path(init, i + 1), d[slot_path(init, i)])
    } else {
        d
    }
}

/// Rename phase: slots `from` down to 1, highest generation first.
pub open spec fn rename_phase<C>(d: Map<Seq<char>, C>, init: Seq<char>, from: nat) -> Map<
    Seq<char>,
    C,
>
    decreases from,
{
    if from == 0 {
        d
    } else {
        rename_phase(rename_one(d, init, from), init, (from - 1) as nat)
    }
}

/// Migration: when the live path is present, its content moves to slot 1 and
/// the live path is recreated with empty content.  Move-create and
/// copy-truncate have this same path-level effect.
pub open spec fn migrate_phase<C>(d: Map<Seq<char>, C>, init: Seq<char>, empty: C) -> Map<
    Seq<char>,
    C,
> {
    if d.dom().contains(init) {
        d.insert(slot_path(init, 1), d[init]).insert(init, empty)
    } else {
        d
    }
}

/// One whole rotation: delete, rename highest first, then migrate.
pub open spec fn rotate_model<C>(d: Map<Seq<char>, C>, init: Seq<char>, keep: int, empty: C) -> Map<
    Seq<char>,
    C,
> {
    migrate_phase(rename_phase(delete_phase(d, init, keep), init, (keep - 2) as nat), init, empty)
}

/// All ten slot paths are pairwise distinct.
pub proof fn lemma_slots_distinct(init: Seq<char>)
    ensures
        forall|i: nat, j: nat|
            i < MAX_NUM && j < MAX_NUM && i != j ==> #[trigger] slot_path(init, i)
                != #[trigger] slot_path(init, j),
{
    assert forall|i: nat, j: nat|
        i < MAX_NUM && j < MAX_NUM && i != j implies #[trigger] slot_path(init, i)
        != #[trigger] slot_path(init, j) by {
        if slot_path(init, i) == slot_path(init, j) {
            lemma_slot_path_injective(init, i, j);
        }
    }
}

/// What the rename phase does, key by key: slots 2 through `from + 1` take
/// the previous slot's content, slot 1 is vacated, and every other path is
/// untouched.  Requires slot `from + 1` to be free, which the delete phase
/// has arranged.
#[verifier::rlimit(50)]
pub proof fn lemma_rename_phase_char<C>(d: Map<Seq<char>, C>, init: Seq<char>, from: nat)
    requires
        from < 9,
        from >= 1 ==> !d.dom().contains(slot_path(init, from + 1)),
    ensures
        forall|j: nat|
            2 <= j <= from + 1 ==> (rename_phase(d, init, from).dom().contains(
                #[trigger] slot_path(init, j),
            ) <==> d.dom().contains(slot_path(init, (j - 1) as nat))),
        forall|j: nat|
            2 <= j <= from + 1 && d.dom().contains(slot_path(init, (j - 1) as nat))
                ==> rename_phase(d, init, from)[#[trigger] slot_path(init, j)] == d[slot_path(
                init,
                (j - 1) as nat,
            )],
        from >= 1 ==> !rename_phase(d, init, from).dom().contains(slot_path(init, 1)),
        forall|p: Seq<char>|
            !(exists|j: nat| 1 <= j <= from + 1 && p == #[trigger] slot_path(init, j)) ==> (
            #[trigger] rename_phase(d, init, from).dom().contains(p) <==> d.dom().contains(p)),
        forall|p: Seq<char>|
            !(exists|j: nat| 1 <= j <= from + 1 && p == #[trigger] slot_path(init, j))
                && d.dom().contains(p) ==> #[trigger] rename_phase(d, init, from)[p] == d[p],
    decreases from,
{
    lemma_slots_distinct(init);
    if from == 0 {
    } else {
        let d1 = rename_one(d, init, from);
        lemma_rename_phase_char(d1, init, (from - 1) as nat);
        let r = rename_phase(d, init, from);
        assert(r == rename_phase(d1, init, (from - 1) as nat));
        assert forall|j: nat|
            2 <= j <= from + 1 && d.dom().contains(
                slot_path(init, (j - 1) as nat),
            ) implies r[#[trigger] slot_path(init, j)] == d[slot_path(init, (j - 1) as nat)] by {
            if j == from + 1 {
                assert(d1.dom().contains(slot_path(init, from + 1)));
                assert(d1[slot_path(init, from + 1)] == d[slot_path(init, from)]);
                assert(!(exists|k: nat|
                    1 <= k <= from && slot_path(init, from + 1) == #[trigger] slot_path(
                        init,
                        k,
                    )));
                assert(r[slot_path(init, from + 1)] == d1[slot_path(init, from + 1)]);
            } else {
                assert(d1.dom().contains(slot_path(init, (j - 1) as nat)));
                assert(d1[slot_path(init, (j - 1) as nat)] == d[slot_path(init, (j - 1) as nat)]);
            }
        }
    }
}

/// After one rotation with every slot populated: the live path holds fresh
/// empty content, the old live content sits in slot 1, each populated slot
/// `1..keep-1` moved one generation down, what stood at slot `keep-1` and
/// beyond is gone (slots `keep..` stay empty), and paths outside the
/// generation sequence are untouched.
pub proof fn lemma_rotation_shifts<C>(d: Map<Seq<char>, C>, init: Seq<char>, keep: int, empty: C)
    requires
        2 <= keep < MAX_NUM,
        forall|i: nat| i < MAX_NUM ==> d.dom().contains(#[trigger] slot_path(init, i)),
    ensures
        rotate_model(d, init, keep, empty).dom().contains(init),
        rotate_model(d, init, keep, empty)[init] == empty,
        rotate_model(d, init, keep, empty).dom().contains(slot_path(init, 1)),
        rotate_model(d, init, keep, empty)[slot_path(init, 1)] == d[init],
        forall|i: nat|
            1 <= i < keep - 1 ==> rotate_model(d, init, keep, empty).dom().contains(
                #[trigger] slot_path(init, i + 1),
            ) && rotate_model(d, init, keep, empty)[slot_path(init, i + 1)] == d[slot_path(
                init,
                i,
            )],
        forall|i: nat|
            keep <= i < MAX_NUM ==> !rotate_model(d, init, keep, empty).dom().contains(
                #[trigger] slot_path(init, i),
            ),
        forall|p: Seq<char>|
            !is_slot(init, p) ==> (#[trigger] rotate_model(d, init, keep, empty).dom().contains(p)
                <==> d.dom().contains(p)),
        forall|p: Seq<char>|
            !is_slot(init, p) && d.dom().contains(p) ==> #[trigger] rotate_model(
                d,
                init,
                keep,
                empty,
            )[p] == d[p],
{
    lemma_slots_distinct(init);
    lemma_init_not_suffixed(init);
    let d0 = delete_phase(d, init, keep);
    assert(!d0.dom().contains(slot_path(init, (keep - 1) as nat)));
    lemma_rename_phase_char(d0, init, (keep - 2) as nat);
    let d1 = rename_phase(d0, init, (keep - 2) as nat);
    assert(d.dom().contains(slot_path(init, 0)));
    assert(d0.dom().contains(init) && d0[init] == d[init]);
    assert(d1.dom().contains(init) && d1[init] == d[init]);
    assert forall|i: nat|
        keep <= i < MAX_NUM implies !rotate_model(d, init, keep, empty).dom().contains(
        #[trigger] slot_path(init, i),
    ) by {
        assert(!d0.dom().contains(slot_path(init, i)));
        assert(!d1.dom().contains(slot_path(init, i)));
    }
    assert forall|i: nat|
        1 <= i < keep - 1 implies rotate_model(d, init, keep, empty).dom().contains(
        #[trigger] slot_path(init, i + 1),
    ) && rotate_model(d, init, keep, empty)[slot_path(init, i + 1)] == d[slot_path(
        init,
        i,
    )] by {
        assert(d0.dom().contains(slot_path(init, i)));
        assert(d0[slot_path(init, i)] == d[slot_path(init, i)]);
        assert(d1.dom().contains(slot_path(init, i + 1)));
        assert(d1[slot_path(init, i + 1)] == d0[slot_path(init, i)]);
    }
}

/// The live path never equals a suffixed slot path.
pub proof fn lemma_init_not_suffixed(init: Seq<char>)
    ensures
        init == slot_path(init, 0),
        forall|j: nat| 1 <= j < MAX_NUM ==> init != #[trigger] slot_path(init, j),
{
    assert forall|j: nat| 1 <= j < MAX_NUM implies init != #[trigger] slot_path(init, j) by {
        if init == slot_path(init, j) {
            lemma_slot_path_injective(init, 0, j);
        }
    }
}

/// Steady state is preserved: when exactly slots `0..keep` are populated,
/// one rotation leaves exactly slots `0..keep` populated -- the chain's size
/// stays constant under repeated rotation.
pub proof fn lemma_rotation_steady_state<C>(
    d: Map<Seq<char>, C>,
    init: Seq<char>,
    keep: int,
    empty: C,
)
    requires
        2 <= keep < MAX_NUM,
        forall|i: nat| i < keep ==> d.dom().contains(#[trigger] slot_path(init, i)),
        forall|i: nat|
            keep <= i < MAX_NUM ==> !d.dom().contains(#[trigger] slot_path(init, i)),
    ensures
        forall|i: nat|
            i < keep ==> rotate_model(d, init, keep, empty).dom().contains(
                #[trigger] slot_path(init, i),
            ),
        forall|i: nat|
            keep <= i < MAX_NUM ==> !rotate_model(d, init, keep, empty).dom().contains(
                #[trigger] slot_path(init, i),
            ),
{
    lemma_slots_distinct(init);
    lemma_init_not_suffixed(init);
    let d0 = delete_phase(d, init, keep);
    lemma_rename_phase_char(d0, init, (keep - 2) as nat);
    let d1 = rename_phase(d0, init, (keep - 2) as nat);
    assert(d.dom().contains(slot_path(init, 0)));
    assert(d0.dom().contains(init));
    assert(d1.dom().contains(init));
    assert forall|i: nat|
        keep <= i < MAX_NUM implies !rotate_model(d, init, keep, empty).dom().contains(
        #[trigger] slot_path(init, i),
    ) by {
        assert(!d0.dom().contains(slot_path(init, i)));
        assert(!d1.dom().contains(slot_path(init, i)));
    }
    assert forall|i: nat|
        i < keep implies rotate_model(d, init, keep, empty).dom().contains(
        #[trigger] slot_path(init, i),
    ) by {
        if i >= 2 {
            assert(d0.dom().contains(slot_path(init, (i - 1) as nat)));
            assert(d1.dom().contains(slot_path(init, i)));
        } else if i == 1 {
            assert(rotate_model(d, init, keep, empty).dom().contains(slot_path(init, 1)));
        }
    }
}

/// Without a live instance the rotation still grooms: the result is exactly
/// the delete and rename phases, and the live path stays absent.
pub proof fn lemma_missing_live<C>(d: Map<Seq<char>, C>, init: Seq<char>, keep: int, empty: C)
    requires
        2 <= keep < MAX_NUM,
        !d.dom().contains(init),
    ensures
        rotate_model(d, init, keep, empty) == rename_phase(
            delete_phase(d, init, keep),
            init,
            (keep - 2) as nat,
        ),
        !rotate_model(d, init, keep, empty).dom().contains(init),
{
    lemma_slots_distinct(init);
    let d0 = delete_phase(d, init, keep);
    lemma_rename_phase_char(d0, init, (keep - 2) as nat);
    let d1 = rename_phase(d0, init, (keep - 2) as nat);
    lemma_init_not_suffixed(init);
    assert(!d0.dom().contains(init));
    assert(!d1.dom().contains(init));
}

/// Removing the listed paths one at a time, as the orchestrator deletes.
pub open spec fn apply_deletes<C>(d: Map<Seq<char>, C>, l: Seq<Seq<char>>) -> Map<Seq<char>, C>
    decreases l.len(),
{
    if l.len() == 0 {
        d
    } else {
        apply_deletes(d.remove(l[0]), l.drop_first())
    }
}

/// The generation successor of a slot path.
pub open spec fn slot_succ(init: Seq<char>, p: Seq<char>) -> Seq<char> {
    let i = choose|i: nat| i < MAX_NUM && p == #[trigger] slot_path(init, i);
    slot_path(init, (i + 1) as nat)
}

/// One filesystem rename: `p`, when present, moves onto its generation
/// successor, overwriting whatever was there.
pub open spec fn rename_by_path<C>(d: Map<Seq<char>, C>, init: Seq<char>, p: Seq<char>) -> Map<
    Seq<char>,
    C,
> {
    if d.dom().contains(p) {
        d.remove(p).insert(slot_succ(init, p), d[p])
    } else {
        d
    }
}

/// Applying the listed renames one filesystem rename at a time, in order.
pub open spec fn apply_renames<C>(d: Map<Seq<char>, C>, init: Seq<char>, l: Seq<Seq<char>>) -> Map<
    Seq<char>,
    C,
>
    decreases l.len(),
{
    if l.len() == 0 {
        d
    } else {
        apply_renames(rename_by_path(d, init, l[0]), init, l.drop_first())
    }
}

proof fn lemma_apply_deletes_char<C>(d: Map<Seq<char>, C>, l: Seq<Seq<char>>)
    ensures
        forall|p: Seq<char>|
            #[trigger] apply_deletes(d, l).dom().contains(p) <==> (d.dom().contains(p)
                && !l.contains(p)),
        forall|p: Seq<char>|
            apply_deletes(d, l).dom().contains(p) ==> #[trigger] apply_deletes(d, l)[p] == d[p],
    decreases l.len(),
{
    if l.len() != 0 {
        let dd = d.remove(l[0]);
        lemma_apply_deletes_char(dd, l.drop_first());
        assert(apply_deletes(d, l) == apply_deletes(dd, l.drop_first()));
        assert(l.contains(l[0])) by {
            assert(l[0] == l[0]);
        }
        assert forall|p: Seq<char>|
            (#[trigger] apply_deletes(d, l).dom().contains(p) <==> (d.dom().contains(p)
                && !l.contains(p))) && (apply_deletes(d, l).dom().contains(p)
                ==> apply_deletes(d, l)[p] == d[p]) by {
            assert(apply_deletes(dd, l.drop_first()).dom().contains(p) <==> (dd.dom().contains(p)
                && !l.drop_first().contains(p)));
            if l.drop_first().contains(p) {
                let w = choose|w: int| 0 <= w < l.drop_first().len() && l.drop_first()[w] == p;
                assert(l[w + 1] == p);
                assert(l.contains(p));
            }
            if l.contains(p) && p != l[0] {
                let w = choose|w: int| 0 <= w < l.len() && l[w] == p;
                assert(l.drop_first()[w - 1] == p);
                assert(l.drop_first().contains(p));
            }
            if apply_deletes(d, l).dom().contains(p) {
                assert(apply_deletes(dd, l.drop_first())[p] == dd[p]);
                assert(dd[p] == d[p]);
            }
        }
    }
}

proof fn lemma_apply_renames_phase<C>(
    d: Map<Seq<char>, C>,
    init: Seq<char>,
    listing: Seq<Seq<char>>,
    from: nat,
)
    requires
        from < 9,
        forall|j: nat|
            1 <= j <= from ==> (d.dom().contains(#[trigger] slot_path(init, j))
                <==> listing.contains(slot_path(init, j))),
    ensures
        apply_renames(d, init, renames_desc(init, listing, from)) == rename_phase(d, init, from),
    decreases from,
{
    lemma_slots_distinct(init);
    if from != 0 {
        let l = renames_desc(init, listing, from);
        let d1 = rename_one(d, init, from);
        if listing.contains(slot_path(init, from)) {
            assert(l[0] == slot_path(init, from));
            assert(l.drop_first() =~= renames_desc(init, listing, (from - 1) as nat));
            assert(d.dom().contains(slot_path(init, from)));
            assert(slot_succ(init, slot_path(init, from)) == slot_path(init, from + 1)) by {
                assert(slot_path(init, from) == slot_path(init, from));
                let i = choose|i: nat|
                    i < MAX_NUM && slot_path(init, from) == #[trigger] slot_path(init, i);
                if i != from {
                    lemma_slot_path_injective(init, from, i);
                }
            }
            assert(rename_by_path(d, init, slot_path(init, from)) == d1);
            lemma_apply_renames_phase(d1, init, listing, (from - 1) as nat);
        } else {
            assert(l =~= renames_desc(init, listing, (from - 1) as nat));
            assert(!d.dom().contains(slot_path(init, from)));
            assert(d1 == d);
            lemma_apply_renames_phase(d, init, listing, (from - 1) as nat);
        }
    }
}

/// The rule's outputs, applied exactly as the orchestrator applies them --
/// every listed delete removed, then each listed rename onto its generation
/// successor in the given highest-first order, then the live instance
/// migrated -- produce `rotate_model`.  In particular no rename overwrites a
/// generation that a later rename still has to move.
pub proof fn lemma_plan_sound<C>(
    d: Map<Seq<char>, C>,
    init: Seq<char>,
    listing: Seq<Seq<char>>,
    keep: int,
    empty: C,
)
    requires
        2 <= keep < MAX_NUM,
        forall|p: Seq<char>| #[trigger] listing.contains(p) <==> d.dom().contains(p),
    ensures
        migrate_phase(
            apply_renames(
                apply_deletes(d, listing.filter(|p: Seq<char>| is_delete_path(init, keep, p))),
                init,
                renames_desc(init, listing, (keep - 2) as nat),
            ),
            init,
            empty,
        ) == rotate_model(d, init, keep, empty),
{
    lemma_slots_distinct(init);
    let pred = |p: Seq<char>| is_delete_path(init, keep, p);
    let deletes = listing.filter(pred);
    lemma_apply_deletes_char(d, deletes);
    lemma_filter_membership(listing, pred);
    let d0a = apply_deletes(d, deletes);
    let d0 = delete_phase(d, init, keep);
    assert_maps_equal!(d0a, d0, p => {
        assert(apply_deletes(d, deletes).dom().contains(p) <==> (d.dom().contains(p)
            && !deletes.contains(p)));
    });
    assert forall|j: nat|
        1 <= j <= keep - 2 implies (d0.dom().contains(#[trigger] slot_path(init, j))
        <==> listing.contains(slot_path(init, j))) by {
        assert(!pred(slot_path(init, j)));
    }
    lemma_apply_renames_phase(d0, init, listing, (keep - 2) as nat);
}

} // verus!
