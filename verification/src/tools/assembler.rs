//! Helpers of the assembler

use vstd::prelude::*;

verus! {

/// Returns the logical implication of a boolean and a predicate: `rhs` is
/// only evaluated when `lhs` holds.
pub fn implies<F: FnOnce() -> bool>(lhs: bool, rhs: F) -> (res: bool)
    requires
        lhs ==> call_requires(rhs, ()),
    ensures
        !lhs ==> res,
        lhs ==> call_ensures(rhs, (), res),
{
    if lhs {
        rhs()
    } else {
        true
    }
}

} // verus!

verus! {

/// A label is global when its name holds no `.`: a local label's name is that
/// of the global label before it, then its own, which starts with `.`.
pub open spec fn is_global(name: Seq<char>) -> bool {
    !name.contains('.')
}

/// A name written with a leading `.` is local.
pub open spec fn is_local_name(name: Seq<char>) -> bool {
    name.len() > 0 && name[0] == '.'
}

/// The labels are ordered by position; labels at one position stay in the
/// order they were added.
pub open spec fn sorted_by_pos(labels: Seq<(u32, String)>) -> bool {
    forall|i: int, j: int| 0 <= i < j < labels.len() ==> labels[i].0 <= labels[j].0
}

/// The name of the last global label at or before `pos`.
pub open spec fn last_global_at(labels: Seq<(u32, String)>, pos: u32) -> Option<Seq<char>>
    decreases labels.len(),
{
    if labels.len() == 0 {
        None
    } else if labels.last().0 <= pos && is_global(labels.last().1@) {
        Some(labels.last().1@)
    } else {
        last_global_at(labels.drop_last(), pos)
    }
}

/// The full name that `name` stands for at `pos`: a local name follows the
/// name of the last global label at or before `pos`, and has none before the
/// first global label; any other name stands for itself.
pub open spec fn spec_resolve(labels: Seq<(u32, String)>, pos: u32, name: Seq<char>) -> Option<Seq<char>> {
    if is_local_name(name) {
        match last_global_at(labels, pos) {
            Some(global) => Some(global + name),
            None => None,
        }
    } else {
        Some(name)
    }
}

/// Some label is named `name`.
pub open spec fn has_name(labels: Seq<(u32, String)>, name: Seq<char>) -> bool {
    exists|i: int| 0 <= i < labels.len() && #[trigger] labels[i].1@ == name
}

/// `new` is `old` with the label `name` at `pos` put at index `k`.
pub open spec fn inserted_at(old: Seq<(u32, String)>, new: Seq<(u32, String)>, k: int, pos: u32, name: Seq<char>) -> bool {
    &&& 0 <= k <= old.len()
    &&& new.len() == old.len() + 1
    &&& new[k].0 == pos
    &&& new[k].1@ == name
    &&& forall|i: int| 0 <= i < k ==> #[trigger] new[i] == old[i]
    &&& forall|i: int| k <= i < old.len() ==> new[i + 1] == #[trigger] old[i]
}

/// Error of [`add_label`]
#[derive(PartialEq, Eq, Clone, Debug)]
pub enum AddLabelError {
    /// A local label came before any global label
    LocalBeforeGlobal { name: String },
    /// A label of the same name was already defined, at `pos`
    Duplicate { pos: u32 },
}

/// Whether `name` is the name of a global label
fn is_global_name(name: &str) -> (res: bool)
    ensures
        res == is_global(name@),
{
    let len = name.unicode_len();
    let mut i: usize = 0;
    while i < len
        invariant
            i <= len,
            len == name@.len(),
            forall|j: int| 0 <= j < i ==> name@[j] != '.',
        decreases len - i,
    {
        if name.get_char(i) == '.' {
            return false;
        }
        i = i + 1;
    }
    true
}

/// The name of the last global label at or before `pos`
fn last_global_label(labels: &[(u32, String)], pos: u32) -> (res: Option<&String>)
    ensures
        match res {
            Some(name) => last_global_at(labels@, pos) == Some(name@),
            None => last_global_at(labels@, pos) is None,
        },
{
    let mut i: usize = labels.len();
    assert(labels@.subrange(0, i as int) =~= labels@);
    while i > 0
        invariant
            i <= labels@.len(),
            last_global_at(labels@, pos) == last_global_at(labels@.subrange(0, i as int), pos),
        decreases i,
    {
        let ghost prefix = labels@.subrange(0, i as int);
        assert(prefix.drop_last() =~= labels@.subrange(0, i - 1));
        assert(prefix.last() == labels@[i - 1]);
        if labels[i - 1].0 <= pos && is_global_name(labels[i - 1].1.as_str()) {
            return Some(&labels[i - 1].1);
        }
        i = i - 1;
    }
    None
}

/// Resolves the label name `name` used at `pos`: a local name (one that starts
/// with `.`) gets the name of the last global label at or before `pos` put in
/// front of it.
pub fn resolve_label_name(name: String, pos: u32, labels: &[(u32, String)]) -> (res: Result<String, AddLabelError>)
    ensures
        match spec_resolve(labels@, pos, name@) {
            Some(full) => res is Ok && res->Ok_0@ == full,
            None => res matches Err(AddLabelError::LocalBeforeGlobal { name: n }) && n@ == name@,
        },
{
    let local = name.as_str().unicode_len() > 0 && name.as_str().get_char(0) == '.';
    if !local {
        return Ok(name);
    }
    match last_global_label(labels, pos) {
        Some(global) => {
            let mut full = global.clone();
            full.append(name.as_str());
            Ok(full)
        },
        None => Err(AddLabelError::LocalBeforeGlobal { name }),
    }
}

/// Adds the label `label_name`, defined at `cur_pos`, to the labels: a local
/// name is first resolved, and a name that is already taken is an error.
pub fn add_label(label_name: String, cur_pos: u32, labels_by_pos: &mut Vec<(u32, String)>) -> (res: Result<(), AddLabelError>)
    requires
        sorted_by_pos(old(labels_by_pos)@),
    ensures
        sorted_by_pos(final(labels_by_pos)@),
        match spec_resolve(old(labels_by_pos)@, cur_pos, label_name@) {
            None => res matches Err(AddLabelError::LocalBeforeGlobal { name: n }) && n@ == label_name@
                && final(labels_by_pos)@ == old(labels_by_pos)@,
            Some(full) => if has_name(old(labels_by_pos)@, full) {
                (res matches Err(AddLabelError::Duplicate { pos }) && exists|i: int|
                    0 <= i < old(labels_by_pos)@.len() && old(labels_by_pos)@[i].1@ == full
                        && #[trigger] old(labels_by_pos)@[i].0 == pos)
                && final(labels_by_pos)@ == old(labels_by_pos)@
            } else {
                res is Ok && exists|k: int| {
                    &&& inserted_at(old(labels_by_pos)@, final(labels_by_pos)@, k, cur_pos, full)
                    &&& forall|i: int| 0 <= i < k ==> #[trigger] old(labels_by_pos)@[i].0 <= cur_pos
                    &&& forall|i: int| k <= i < old(labels_by_pos)@.len() ==> #[trigger] old(labels_by_pos)@[i].0 > cur_pos
                }
            },
        },
{
    // Resolve local labels
    let ghost lname = label_name@;
    let full = match resolve_label_name(label_name, cur_pos, labels_by_pos.as_slice()) {
        Ok(full) => full,
        Err(err) => return Err(err),
    };

    // Then make sure no label has the name
    let mut i: usize = 0;
    while i < labels_by_pos.len()
        invariant
            i <= labels_by_pos@.len(),
            labels_by_pos@ == old(labels_by_pos)@,
            sorted_by_pos(labels_by_pos@),
            spec_resolve(labels_by_pos@, cur_pos, lname) == Some(full@),
            lname == label_name@,
            forall|j: int| 0 <= j < i ==> #[trigger] labels_by_pos@[j].1@ != full@,
        decreases labels_by_pos@.len() - i,
    {
        if labels_by_pos[i].1 == full {
            assert(labels_by_pos@[i as int].1@ == full@);
            assert(has_name(labels_by_pos@, full@));
            return Err(AddLabelError::Duplicate { pos: labels_by_pos[i].0 });
        }
        i = i + 1;
    }

    // And put it after every label at or before it
    let mut k: usize = 0;
    while k < labels_by_pos.len() && labels_by_pos[k].0 <= cur_pos
        invariant
            k <= labels_by_pos@.len(),
            labels_by_pos@ == old(labels_by_pos)@,
            forall|j: int| 0 <= j < k ==> #[trigger] labels_by_pos@[j].0 <= cur_pos,
        decreases labels_by_pos@.len() - k,
    {
        k = k + 1;
    }
    let ghost prev = labels_by_pos@;
    let ghost name = full@;
    labels_by_pos.insert(k, (cur_pos, full));
    proof {
        assert forall|j: int| k <= j < prev.len() implies #[trigger] prev[j].0 > cur_pos by {
            assert(prev[k as int].0 <= prev[j].0);
        }
        assert(inserted_at(prev, labels_by_pos@, k as int, cur_pos, name));
    }
    Ok(())
}

} // verus!

verus! {

/// The last label whose name holds no `.`, among those at or before `pos`, is
/// the one at index `i`.
proof fn lemma_last_global_at_index(labels: Seq<(u32, String)>, pos: u32, i: int)
    requires
        0 <= i < labels.len(),
        labels[i].0 <= pos,
        !labels[i].1@.contains('.'),
        forall|j: int| i < j < labels.len() && labels[j].0 <= pos ==> #[trigger] labels[j].1@.contains('.'),
    ensures
        last_global_at(labels, pos) == Some(labels[i].1@),
    decreases labels.len(),
{
    if i < labels.len() - 1 {
        let last = labels.len() - 1;
        assert(labels.last() == labels[last]);
        if labels[last].0 <= pos {
            assert(labels[last].1@.contains('.'));
        }
        let rest = labels.drop_last();
        assert forall|j: int| i < j < rest.len() && rest[j].0 <= pos implies #[trigger] rest[j].1@.contains('.') by {
            assert(rest[j] == labels[j]);
        }
        lemma_last_global_at_index(rest, pos, i);
    }
}

/// No label at or before `pos` has a name without a `.`.
proof fn lemma_last_global_at_none(labels: Seq<(u32, String)>, pos: u32)
    requires
        forall|j: int| 0 <= j < labels.len() && labels[j].0 <= pos ==> #[trigger] labels[j].1@.contains('.'),
    ensures
        last_global_at(labels, pos) is None,
    decreases labels.len(),
{
    if labels.len() > 0 {
        let last = labels.len() - 1;
        assert(labels.last() == labels[last]);
        let rest = labels.drop_last();
        assert forall|j: int| 0 <= j < rest.len() && rest[j].0 <= pos implies #[trigger] rest[j].1@.contains('.') by {
            assert(rest[j] == labels[j]);
        }
        lemma_last_global_at_none(rest, pos);
    }
}

/// A name used at `pos` that starts with `.` stands for the name of the last
/// label at or before `pos` (one at `pos` itself included) whose name holds no
/// `.`, followed by the name itself: when that label is the one at index `i`,
/// the name resolves to its name and then `name`.
pub proof fn lemma_resolve_local(labels: Seq<(u32, String)>, pos: u32, i: int, name: Seq<char>)
    requires
        name.len() > 0,
        name[0] == '.',
        0 <= i < labels.len(),
        labels[i].0 <= pos,
        !labels[i].1@.contains('.'),
        forall|j: int| i < j < labels.len() && labels[j].0 <= pos ==> #[trigger] labels[j].1@.contains('.'),
    ensures
        spec_resolve(labels, pos, name) == Some(labels[i].1@ + name),
{
    lemma_last_global_at_index(labels, pos, i);
}

/// A name used at `pos` that starts with `.` resolves to nothing when every
/// label at or before `pos` has a `.` in its name.
pub proof fn lemma_resolve_unresolved(labels: Seq<(u32, String)>, pos: u32, name: Seq<char>)
    requires
        name.len() > 0,
        name[0] == '.',
        forall|j: int| 0 <= j < labels.len() && labels[j].0 <= pos ==> #[trigger] labels[j].1@.contains('.'),
    ensures
        spec_resolve(labels, pos, name) is None,
{
    lemma_last_global_at_none(labels, pos);
}

/// A name that does not start with `.` stands for itself, whatever the labels.
pub proof fn lemma_resolve_global(labels: Seq<(u32, String)>, pos: u32, name: Seq<char>)
    requires
        !(name.len() > 0 && name[0] == '.'),
    ensures
        spec_resolve(labels, pos, name) == Some(name),
{
}

} // verus!
