//! Labels that the `.msd` extractor gives to jump targets that carry none.

use vstd::prelude::*;
use crate::tools::dbg::{digit_char, spec_digits};

verus! {

/// `a` is the target of one of `jumps`, and no label of `labeled` marks it.
pub open spec fn unlabeled_target(jumps: Seq<u32>, labeled: Seq<u32>, a: u32) -> bool {
    jumps.contains(a) && !labeled.contains(a)
}

/// Each address of `s` is smaller than the ones after it.
pub open spec fn strictly_increasing(s: Seq<u32>) -> bool {
    forall|i: int, j: int| 0 <= i < j < s.len() ==> s[i] < s[j]
}

/// The name of the `idx`-th heuristic label: `jump_` and `idx` in decimal.
pub open spec fn jump_label_name(idx: nat) -> Seq<char> {
    seq!['j', 'u', 'm', 'p', '_'] + spec_digits(idx, 10)
}

/// Whether `s` holds `a`
fn contains_u32(s: &[u32], a: u32) -> (res: bool)
    ensures
        res == s@.contains(a),
{
    let mut i: usize = 0;
    while i < s.len()
        invariant
            i <= s@.len(),
            forall|j: int| 0 <= j < i ==> s@[j] != a,
        decreases s@.len() - i,
    {
        if s[i] == a {
            return true;
        }
        i = i + 1;
    }
    false
}

/// The one-character text of the decimal digit `v`
fn digit_str(v: usize) -> (res: &'static str)
    requires
        v < 10,
    ensures
        res@ == seq![digit_char(v as int)],
{
    proof {
        reveal_strlit("0");
        reveal_strlit("1");
        reveal_strlit("2");
        reveal_strlit("3");
        reveal_strlit("4");
        reveal_strlit("5");
        reveal_strlit("6");
        reveal_strlit("7");
        reveal_strlit("8");
        reveal_strlit("9");
    }
    match v {
        0 => "0",
        1 => "1",
        2 => "2",
        3 => "3",
        4 => "4",
        5 => "5",
        6 => "6",
        7 => "7",
        8 => "8",
        _ => "9",
    }
}

/// `n` written in decimal
pub fn decimal_string(n: usize) -> (res: String)
    ensures
        res@ == spec_digits(n as nat, 10),
    decreases n,
{
    if n < 10 {
        String::from_str(digit_str(n))
    } else {
        let mut res = decimal_string(n / 10);
        res.append(digit_str(n % 10));
        assert(res@ =~= spec_digits((n / 10) as nat, 10).push(digit_char((n % 10) as int)));
        res
    }
}

/// The targets of `jumps` that no label of `labeled` marks, each once, in
/// ascending order.
pub fn unlabeled_jump_targets(jumps: &[u32], labeled: &[u32]) -> (res: Vec<u32>)
    ensures
        strictly_increasing(res@),
        forall|a: u32| res@.contains(a) <==> unlabeled_target(jumps@, labeled@, a),
{
    let mut res: Vec<u32> = Vec::new();
    let mut k: usize = 0;
    while k < jumps.len()
        invariant
            k <= jumps@.len(),
            strictly_increasing(res@),
            forall|a: u32| res@.contains(a) <==> (jumps@.subrange(0, k as int).contains(a) && !labeled@.contains(a)),
        decreases jumps@.len() - k,
    {
        let a = jumps[k];
        let ghost prev = res@;
        let ghost cur = jumps@.subrange(0, k as int);
        let ghost next = jumps@.subrange(0, k + 1);
        assert forall|b: u32| next.contains(b) <==> (cur.contains(b) || b == a) by {
            if next.contains(b) {
                let i = choose|i: int| 0 <= i < next.len() && next[i] == b;
                if i < k {
                    assert(cur[i] == b);
                }
            }
            if cur.contains(b) {
                let i = choose|i: int| 0 <= i < cur.len() && cur[i] == b;
                assert(next[i] == b);
            }
            if b == a {
                assert(next[k as int] == b);
            }
        }
        let is_labeled = contains_u32(labeled, a);
        if !is_labeled {
            // Find where `a` belongs among the sorted targets
            let mut pos: usize = 0;
            while pos < res.len() && res[pos] < a
                invariant
                    pos <= res@.len(),
                    res@ == prev,
                    forall|j: int| 0 <= j < pos ==> res@[j] < a,
                decreases res@.len() - pos,
            {
                pos = pos + 1;
            }
            if pos < res.len() && res[pos] == a {
                // Already there
                assert(prev[pos as int] == a);
            } else {
                proof {
                    if prev.contains(a) {
                        let j = choose|j: int| 0 <= j < prev.len() && prev[j] == a;
                        if j >= pos {
                            assert(prev[pos as int] <= prev[j]);
                        }
                    }
                }
                res.insert(pos, a);
                assert forall|b: u32| res@.contains(b) <==> (prev.contains(b) || b == a) by {
                    if res@.contains(b) {
                        let j = choose|j: int| 0 <= j < res@.len() && res@[j] == b;
                        if j < pos {
                            assert(prev[j] == b);
                        } else if j > pos {
                            assert(prev[j - 1] == b);
                        }
                    }
                    if prev.contains(b) {
                        let j = choose|j: int| 0 <= j < prev.len() && prev[j] == b;
                        if j < pos {
                            assert(res@[j] == b);
                        } else {
                            assert(res@[j + 1] == b);
                        }
                    }
                    if b == a {
                        assert(res@[pos as int] == b);
                    }
                }
            }
        }
        assert(forall|b: u32| res@.contains(b) <==> (prev.contains(b) || (b == a && !is_labeled)));
        assert forall|b: u32| res@.contains(b) <==> (next.contains(b) && !labeled@.contains(b)) by {
            assert(prev.contains(b) <==> (cur.contains(b) && !labeled@.contains(b)));
            assert(next.contains(b) <==> (cur.contains(b) || b == a));
        }
        k = k + 1;
    }
    assert(jumps@.subrange(0, jumps@.len() as int) =~= jumps@);
    res
}

/// Names each target of `jumps` that no label of `labeled` marks: in
/// ascending order of address, the `idx`-th of them becomes `jump_{idx}`.
pub fn heuristic_labels(jumps: &[u32], labeled: &[u32]) -> (res: Vec<(u32, String)>)
    ensures
        forall|i: int, j: int| 0 <= i < j < res@.len() ==> res@[i].0 < res@[j].0,
        forall|i: int| 0 <= i < res@.len() ==> unlabeled_target(jumps@, labeled@, #[trigger] res@[i].0),
        forall|a: u32| unlabeled_target(jumps@, labeled@, a) ==> exists|i: int| 0 <= i < res@.len() && res@[i].0 == a,
        forall|i: int| 0 <= i < res@.len() ==> #[trigger] res@[i].1@ == jump_label_name(i as nat),
{
    let targets = unlabeled_jump_targets(jumps, labeled);
    let mut res: Vec<(u32, String)> = Vec::new();
    let mut idx: usize = 0;
    while idx < targets.len()
        invariant
            idx <= targets@.len(),
            res@.len() == idx,
            forall|i: int| 0 <= i < idx ==> #[trigger] res@[i].0 == targets@[i],
            forall|i: int| 0 <= i < idx ==> #[trigger] res@[i].1@ == jump_label_name(i as nat),
        decreases targets@.len() - idx,
    {
        let mut name = String::from_str("jump_");
        proof {
            reveal_strlit("jump_");
        }
        name.append(decimal_string(idx).as_str());
        assert(name@ =~= jump_label_name(idx as nat));
        res.push((targets[idx], name));
        idx = idx + 1;
    }
    assert forall|a: u32| unlabeled_target(jumps@, labeled@, a) implies exists|i: int| 0 <= i < res@.len() && res@[i].0 == a by {
        assert(targets@.contains(a));
        let i = choose|i: int| 0 <= i < targets@.len() && targets@[i] == a;
        assert(res@[i].0 == a);
    }
    assert forall|i: int| 0 <= i < res@.len() implies unlabeled_target(jumps@, labeled@, #[trigger] res@[i].0) by {
        assert(res@[i].0 == targets@[i]);
        assert(targets@.contains(targets@[i]));
    }
    assert forall|i: int, j: int| 0 <= i < j < res@.len() implies res@[i].0 < res@[j].0 by {
        assert(res@[i].0 == targets@[i]);
        assert(res@[j].0 == targets@[j]);
    }
    res
}

} // verus!
