//! Sets of names kept in a `Vec<String>` without repeats: membership and toggling.
use vstd::prelude::*;
use crate::text::chars_of;

verus! {

/// Whether a sequence of names holds no name twice.
pub open spec fn no_repeats(s: Seq<Seq<char>>) -> bool {
    forall|i: int, j: int| 0 <= i < j < s.len() ==> s[i] != s[j]
}

/// The names held, as character sequences.
pub open spec fn names_view(v: Seq<String>) -> Seq<Seq<char>> {
    v.map_values(|s: String| s@)
}

/// The names held, as a set.
pub open spec fn names_set(v: Seq<String>) -> Set<Seq<char>> {
    names_view(v).to_set()
}

/// A set with `p` taken out if it was in, put in otherwise.
pub open spec fn toggled(s: Set<Seq<char>>, p: Seq<char>) -> Set<Seq<char>> {
    if s.contains(p) { s.remove(p) } else { s.insert(p) }
}

/// Toggling a name twice leaves the set as it was.
pub proof fn law_toggled_twice(s: Set<Seq<char>>, p: Seq<char>)
    ensures
        toggled(toggled(s, p), p) == s,
{
    assert(toggled(toggled(s, p), p) =~= s);
}

/// Whether two strings hold the same characters.
pub fn same_text(a: &str, b: &str) -> (r: bool)
    ensures
        r == (a@ == b@),
{
    let x = chars_of(a);
    let y = chars_of(b);
    crate::terminal::chars_equal(x.as_slice(), y.as_slice())
}

/// Whether the set `v` holds `name`.
pub fn set_contains(v: &Vec<String>, name: &str) -> (r: bool)
    ensures
        r == names_set(v@).contains(name@),
{
    let ghost dv = names_view(v@);
    let mut i: usize = 0;
    while i < v.len()
        invariant
            i <= v.len(),
            dv == names_view(v@),
            forall|k: int| 0 <= k < i ==> dv[k] != name@,
        decreases v.len() - i,
    {
        if same_text(v[i].as_str(), name) {
            proof {
                assert(dv[i as int] == name@);
                assert(dv.to_set().contains(name@)) by {
                    assert(dv.contains(name@));
                }
            }
            return true;
        }
        i = i + 1;
    }
    proof {
        assert(!dv.contains(name@));
    }
    false
}

/// Takes `name` out of the set `v` if it is in, puts it in otherwise.
pub fn set_toggle(v: &mut Vec<String>, name: &str)
    ensures
        no_repeats(names_view(old(v)@)) ==> no_repeats(names_view(final(v)@)),
        names_set(final(v)@) == toggled(names_set(old(v)@), name@),
{
    let ghost dv = names_view(v@);
    let mut kept: Vec<String> = Vec::new();
    let mut found = false;
    let mut i: usize = 0;
    proof {
        assert(names_view(kept@).to_set() =~= dv.take(0).to_set().remove(name@)) by {
            assert(names_view(kept@) =~= Seq::<Seq<char>>::empty());
            assert(dv.take(0) =~= Seq::<Seq<char>>::empty());
        }
    }
    while i < v.len()
        invariant
            i <= v.len(),
            dv == names_view(v@),
            found == dv.take(i as int).contains(name@),
            no_repeats(dv) ==> no_repeats(names_view(kept@)),
            forall|k: int| 0 <= k < kept@.len() ==> #[trigger] dv.take(i as int).contains(names_view(kept@)[k]),
            forall|k: int| 0 <= k < kept@.len() ==> #[trigger] names_view(kept@)[k] != name@,
            names_view(kept@).to_set() == dv.take(i as int).to_set().remove(name@),
        decreases v.len() - i,
    {
        let ghost before = names_view(kept@);
        let ghost x = dv[i as int];
        proof {
            assert(dv.take(i as int + 1) =~= dv.take(i as int).push(x));
            dv.take(i as int).lemma_push_to_set_commute(x);
            if no_repeats(dv) {
                assert(!dv.take(i as int).contains(x)) by {
                    if dv.take(i as int).contains(x) {
                        let j = choose|j: int| 0 <= j < dv.take(i as int).len() && dv.take(i as int)[j] == x;
                        assert(dv[j] == dv[i as int]);
                    }
                }
            }
            assert forall|k: int| 0 <= k < kept@.len() implies #[trigger] dv.take(i as int + 1).contains(names_view(kept@)[k]) by {
                let y = names_view(kept@)[k];
                assert(dv.take(i as int).contains(y));
                let j = choose|j: int| 0 <= j < dv.take(i as int).len() && dv.take(i as int)[j] == y;
                assert(dv.take(i as int + 1)[j] == y);
            }
        }
        if same_text(v[i].as_str(), name) {
            found = true;
            proof {
                assert(dv.take(i as int + 1)[i as int] == name@);
                assert(dv.take(i as int + 1).to_set().remove(name@) =~= dv.take(i as int).to_set().remove(name@));
            }
        } else {
            kept.push(v[i].clone());
            proof {
                let t = dv.take(i as int);
                let t1 = dv.take(i as int + 1);
                assert(t1.contains(name@) == t.contains(name@)) by {
                    if t1.contains(name@) {
                        let j = choose|j: int| 0 <= j < t1.len() && t1[j] == name@;
                        assert(j != i);
                        assert(t[j] == name@);
                    }
                    if t.contains(name@) {
                        let j = choose|j: int| 0 <= j < t.len() && t[j] == name@;
                        assert(t1[j] == name@);
                    }
                }
                assert(names_view(kept@) =~= before.push(x));
                before.lemma_push_to_set_commute(x);
                if no_repeats(dv) {
                    assert(!before.contains(x)) by {
                        if before.contains(x) {
                            let j = choose|j: int| 0 <= j < before.len() && before[j] == x;
                            assert(dv.take(i as int).contains(before[j]));
                        }
                    }
                }
                assert(names_view(kept@)[names_view(kept@).len() - 1] == x);
                assert(dv.take(i as int + 1)[i as int] == x);
                assert(names_view(kept@).to_set() =~= dv.take(i as int + 1).to_set().remove(name@));
            }
        }
        i = i + 1;
    }
    proof {
        assert(dv.take(dv.len() as int) =~= dv);
    }
    let ghost kv = names_view(kept@);
    if !found {
        kept.push(name.to_owned());
        proof {
            assert(names_view(kept@) =~= kv.push(name@));
            kv.lemma_push_to_set_commute(name@);
            assert(!dv.to_set().contains(name@)) by {
                if dv.to_set().contains(name@) {
                    assert(dv.contains(name@));
                }
            }
            assert(names_view(kept@).to_set() =~= dv.to_set().insert(name@));
        }
    }
    *v = kept;
}

} // verus!
