//! The order in which providers, keys and model lists are shown: names compare by their
//! UTF-8 bytes, as `String`s do, and lists are put in that order by a stable sort.
use vstd::prelude::*;
use vstd::utf8::encode_utf8;
use vstd::string::StringSliceAdditionalSpecFns;
use crate::settings::EditableProvider;

verus! {

/// Whether byte string `a` comes before `b` when both are read from position `i` on: at the
/// first position where they differ the smaller byte comes first, and a string that ends
/// first comes before a longer one.
pub open spec fn bytes_before_from(a: Seq<u8>, b: Seq<u8>, i: nat) -> bool
    decreases a.len() - i,
{
    if i >= a.len() {
        i < b.len()
    } else if i >= b.len() {
        false
    } else if a[i as int] != b[i as int] {
        a[i as int] < b[i as int]
    } else {
        bytes_before_from(a, b, i + 1)
    }
}

/// Whether the name `a` sorts strictly before `b`: their UTF-8 encodings compared byte by
/// byte, which is how `String` values compare.
pub open spec fn name_before(a: Seq<char>, b: Seq<char>) -> bool {
    bytes_before_from(encode_utf8(a), encode_utf8(b), 0)
}

/// Whether the string `a` sorts strictly before `b`.
pub fn str_before(a: &str, b: &str) -> (r: bool)
    ensures
        r == name_before(a@, b@),
{
    let x = a.as_bytes();
    let y = b.as_bytes();
    let mut i: usize = 0;
    loop
        invariant
            x@ == encode_utf8(a@),
            y@ == encode_utf8(b@),
            i <= x@.len(),
            i <= y@.len(),
            bytes_before_from(x@, y@, 0) == bytes_before_from(x@, y@, i as nat),
        decreases x@.len() - i,
    {
        if i >= x.len() {
            return i < y.len();
        }
        if i >= y.len() {
            return false;
        }
        if x[i] != y[i] {
            return x[i] < y[i];
        }
        i = i + 1;
    }
}

proof fn lemma_bytes_before_irreflexive(a: Seq<u8>, i: nat)
    ensures
        !bytes_before_from(a, a, i),
    decreases a.len() - i,
{
    if i < a.len() {
        lemma_bytes_before_irreflexive(a, i + 1);
    }
}

proof fn lemma_bytes_before_transitive(a: Seq<u8>, b: Seq<u8>, c: Seq<u8>, i: nat)
    requires
        bytes_before_from(a, b, i),
        bytes_before_from(b, c, i),
    ensures
        bytes_before_from(a, c, i),
    decreases a.len() - i,
{
    if i < a.len() && i < b.len() && i < c.len() && a[i as int] == b[i as int] && b[i as int] == c[i as int] {
        lemma_bytes_before_transitive(a, b, c, i + 1);
    }
}

proof fn lemma_bytes_before_total(a: Seq<u8>, b: Seq<u8>, i: nat)
    requires
        i <= a.len(),
        i <= b.len(),
    ensures
        bytes_before_from(a, b, i) || bytes_before_from(b, a, i) || a.skip(i as int) =~= b.skip(i as int),
    decreases a.len() - i,
{
    if i < a.len() && i < b.len() && a[i as int] == b[i as int] {
        lemma_bytes_before_total(a, b, i + 1);
        if a.skip((i + 1) as int) =~= b.skip((i + 1) as int) {
            assert(a.skip(i as int) =~= seq![a[i as int]] + a.skip((i + 1) as int));
            assert(b.skip(i as int) =~= seq![b[i as int]] + b.skip((i + 1) as int));
        }
    }
}

/// No name sorts before itself.
pub proof fn lemma_name_before_irreflexive(a: Seq<char>)
    ensures
        !name_before(a, a),
{
    lemma_bytes_before_irreflexive(encode_utf8(a), 0);
}

/// Sorting before is transitive.
pub proof fn lemma_name_before_transitive(a: Seq<char>, b: Seq<char>, c: Seq<char>)
    requires
        name_before(a, b),
        name_before(b, c),
    ensures
        name_before(a, c),
{
    lemma_bytes_before_transitive(encode_utf8(a), encode_utf8(b), encode_utf8(c), 0);
}

/// Of two different names, one sorts before the other.
pub proof fn lemma_name_before_total(a: Seq<char>, b: Seq<char>)
    ensures
        a == b || name_before(a, b) || name_before(b, a),
{
    broadcast use vstd::utf8::encode_utf8_decode_utf8;
    let x = encode_utf8(a);
    let y = encode_utf8(b);
    lemma_bytes_before_total(x, y, 0);
    if x.skip(0) =~= y.skip(0) {
        assert(x =~= x.skip(0));
        assert(y =~= y.skip(0));
        assert(vstd::utf8::decode_utf8(x) == a);
        assert(vstd::utf8::decode_utf8(y) == b);
    }
}

/// "Not after" is transitive: if `b` is not before `a` and `c` is not before `b`, then `c`
/// is not before `a`.
pub proof fn lemma_not_before_transitive(a: Seq<char>, b: Seq<char>, c: Seq<char>)
    requires
        !name_before(b, a),
        !name_before(c, b),
    ensures
        !name_before(c, a),
{
    lemma_name_before_total(a, b);
    lemma_name_before_total(b, c);
    if a != b && b != c {
        lemma_name_before_transitive(a, b, c);
        if name_before(c, a) {
            lemma_name_before_transitive(a, c, a);
            lemma_name_before_irreflexive(a);
        }
    }
}

/// A value that lists are sorted by: it has a name.
pub trait Named {
    /// The name the value sorts by.
    spec fn name_of(&self) -> Seq<char>;

    /// The name, borrowed.
    fn name_str(&self) -> (r: &str)
        ensures
            r@ == self.name_of();
}

impl Named for String {
    open spec fn name_of(&self) -> Seq<char> {
        self@
    }

    fn name_str(&self) -> (r: &str) {
        self.as_str()
    }
}

impl Named for (String, String) {
    open spec fn name_of(&self) -> Seq<char> {
        self.0@
    }

    fn name_str(&self) -> (r: &str) {
        self.0.as_str()
    }
}

impl Named for (String, String, String, String, String) {
    open spec fn name_of(&self) -> Seq<char> {
        self.0@
    }

    fn name_str(&self) -> (r: &str) {
        self.0.as_str()
    }
}

impl Named for EditableProvider {
    open spec fn name_of(&self) -> Seq<char> {
        self.name@
    }

    fn name_str(&self) -> (r: &str) {
        self.name.as_str()
    }
}

/// `s` with `x` inserted after every element whose name does not sort after `x`'s, the
/// elements behind it being those whose names sort after it.
pub open spec fn insert_by_name<T: Named>(s: Seq<T>, x: T) -> Seq<T>
    decreases s.len(),
{
    if s.len() == 0 {
        seq![x]
    } else if name_before(x.name_of(), s.last().name_of()) {
        insert_by_name(s.drop_last(), x).push(s.last())
    } else {
        s.push(x)
    }
}

/// `s` sorted by name, elements of equal names keeping their order: each element in turn
/// is inserted behind the ones already placed that do not sort after it.
pub open spec fn sorted_by_name<T: Named>(s: Seq<T>) -> Seq<T>
    decreases s.len(),
{
    if s.len() == 0 {
        s
    } else {
        insert_by_name(sorted_by_name(s.drop_last()), s.last())
    }
}

/// Whether no element of `s` has a name sorting before that of an element ahead of it.
pub open spec fn names_sorted<T: Named>(s: Seq<T>) -> bool {
    forall|i: int, j: int| 0 <= i < j < s.len() ==> !name_before(#[trigger] s[j].name_of(), #[trigger] s[i].name_of())
}

proof fn lemma_insert_by_name_at<T: Named>(s: Seq<T>, x: T, j: int)
    requires
        0 <= j <= s.len(),
        forall|m: int| j <= m < s.len() ==> name_before(x.name_of(), #[trigger] s[m].name_of()),
        j == 0 || !name_before(x.name_of(), s[j - 1].name_of()),
    ensures
        insert_by_name(s, x) == s.insert(j, x),
    decreases s.len(),
{
    if s.len() == 0 {
        assert(s.insert(j, x) =~= seq![x]);
    } else if j == s.len() {
        assert(s.insert(j, x) =~= s.push(x));
    } else {
        let t = s.drop_last();
        assert(name_before(x.name_of(), s[s.len() - 1].name_of()));
        assert forall|m: int| j <= m < t.len() implies name_before(x.name_of(), #[trigger] t[m].name_of()) by {
            assert(t[m] == s[m]);
        }
        lemma_insert_by_name_at(t, x, j);
        assert(s.insert(j, x) =~= t.insert(j, x).push(s.last()));
    }
}

proof fn lemma_insert_by_name_multiset<T: Named>(s: Seq<T>, x: T)
    ensures
        insert_by_name(s, x).to_multiset() =~= s.to_multiset().insert(x),
        insert_by_name(s, x).len() == s.len() + 1,
    decreases s.len(),
{
    broadcast use vstd::seq_lib::group_to_multiset_ensures;
    if s.len() == 0 {
        assert(seq![x] =~= s.push(x));
    } else if name_before(x.name_of(), s.last().name_of()) {
        let t = s.drop_last();
        lemma_insert_by_name_multiset(t, x);
        assert(s =~= t.push(s.last()));
    }
}

proof fn lemma_insert_by_name_sorted<T: Named>(s: Seq<T>, x: T)
    requires
        names_sorted(s),
    ensures
        names_sorted(insert_by_name(s, x)),
        forall|k: int| 0 <= k < insert_by_name(s, x).len() ==> (#[trigger] insert_by_name(s, x)[k] == x
            || s.contains(insert_by_name(s, x)[k])),
    decreases s.len(),
{
    let r = insert_by_name(s, x);
    lemma_insert_by_name_multiset(s, x);
    if s.len() == 0 {
    } else if name_before(x.name_of(), s.last().name_of()) {
        let t = s.drop_last();
        let last = s.last();
        assert forall|i: int, j: int| 0 <= i < j < t.len() implies !name_before(#[trigger] t[j].name_of(), #[trigger] t[i].name_of()) by {
            assert(t[i] == s[i] && t[j] == s[j]);
        }
        lemma_insert_by_name_sorted(t, x);
        let u = insert_by_name(t, x);
        assert forall|i: int, j: int| 0 <= i < j < r.len() implies !name_before(#[trigger] r[j].name_of(), #[trigger] r[i].name_of()) by {
            if j == r.len() - 1 {
                assert(r[j] == last);
                assert(r[i] == u[i]);
                if u[i] == x {
                    if name_before(last.name_of(), x.name_of()) {
                        lemma_name_before_transitive(x.name_of(), last.name_of(), x.name_of());
                        lemma_name_before_irreflexive(x.name_of());
                    }
                } else {
                    let k = choose|k: int| 0 <= k < t.len() && t[k] == u[i];
                    assert(t[k] == s[k]);
                    assert(!name_before(s[s.len() - 1].name_of(), s[k].name_of()));
                }
            } else {
                assert(r[i] == u[i] && r[j] == u[j]);
            }
        }
        assert forall|k: int| 0 <= k < r.len() implies (#[trigger] r[k] == x || s.contains(r[k])) by {
            if k == r.len() - 1 {
                assert(s[s.len() - 1] == r[k]);
            } else {
                assert(r[k] == u[k]);
                if u[k] != x {
                    let m = choose|m: int| 0 <= m < t.len() && t[m] == u[k];
                    assert(s[m] == t[m]);
                }
            }
        }
    } else {
        assert forall|i: int, j: int| 0 <= i < j < r.len() implies !name_before(#[trigger] r[j].name_of(), #[trigger] r[i].name_of()) by {
            if j == r.len() - 1 {
                assert(r[j] == x);
                if i < s.len() - 1 {
                    assert(!name_before(s[s.len() - 1].name_of(), s[i].name_of()));
                    lemma_not_before_transitive(s[i].name_of(), s[s.len() - 1].name_of(), x.name_of());
                }
            }
        }
        assert forall|k: int| 0 <= k < r.len() implies (#[trigger] r[k] == x || s.contains(r[k])) by {
            if k < s.len() {
                assert(r[k] == s[k]);
            }
        }
    }
}

/// A list sorted by name is in order, and holds the same elements as the list it came from,
/// each as often.
pub proof fn law_sorted_by_name_sorts<T: Named>(s: Seq<T>)
    ensures
        names_sorted(sorted_by_name(s)),
        sorted_by_name(s).to_multiset() =~= s.to_multiset(),
        sorted_by_name(s).len() == s.len(),
    decreases s.len(),
{
    broadcast use vstd::seq_lib::group_to_multiset_ensures;
    if s.len() > 0 {
        let t = s.drop_last();
        law_sorted_by_name_sorts(t);
        lemma_insert_by_name_sorted(sorted_by_name(t), s.last());
        lemma_insert_by_name_multiset(sorted_by_name(t), s.last());
        assert(s =~= t.push(s.last()));
    }
}

/// Sorts `v` by name, stably: the result is `sorted_by_name` of the old contents.
pub fn sort_by_name<T: Named>(v: &mut Vec<T>)
    ensures
        final(v)@ == sorted_by_name(old(v)@),
{
    let mut src: Vec<T> = Vec::new();
    std::mem::swap(v, &mut src);
    let ghost orig = src@;
    let ghost mut k: int = 0;
    let mut out: Vec<T> = Vec::new();
    assert(orig.take(0) =~= Seq::<T>::empty());
    assert(src@ =~= orig.skip(0));
    while src.len() > 0
        invariant
            0 <= k <= orig.len(),
            src@ == orig.skip(k),
            out@ == sorted_by_name(orig.take(k)),
        decreases src@.len(),
    {
        let x = src.remove(0);
        proof {
            assert(x == orig[k]);
        }
        let mut j: usize = out.len();
        while j > 0 && str_before(x.name_str(), out[j - 1].name_str())
            invariant
                j <= out@.len(),
                forall|m: int| j <= m < out@.len() ==> name_before(x.name_of(), #[trigger] out@[m].name_of()),
            decreases j,
        {
            j = j - 1;
        }
        proof {
            lemma_insert_by_name_at(out@, x, j as int);
            assert(orig.take(k + 1).drop_last() =~= orig.take(k));
            assert(orig.take(k + 1).last() == x);
            assert(src@ =~= orig.skip(k + 1));
        }
        out.insert(j, x);
        proof {
            k = k + 1;
        }
    }
    proof {
        assert(orig.take(k) =~= orig);
    }
    *v = out;
}

/// `s` with `x` inserted after every element whose key does not sort after `x`'s.
pub open spec fn insert_by_key<B>(s: Seq<B>, x: B, key: spec_fn(B) -> Seq<char>) -> Seq<B>
    decreases s.len(),
{
    if s.len() == 0 {
        seq![x]
    } else if name_before(key(x), key(s.last())) {
        insert_by_key(s.drop_last(), x, key).push(s.last())
    } else {
        s.push(x)
    }
}

/// `s` sorted by `key`, elements of equal keys keeping their order.
pub open spec fn sorted_by_key<B>(s: Seq<B>, key: spec_fn(B) -> Seq<char>) -> Seq<B>
    decreases s.len(),
{
    if s.len() == 0 {
        s
    } else {
        insert_by_key(sorted_by_key(s.drop_last(), key), s.last(), key)
    }
}

proof fn lemma_insert_map<T: Named, B>(s: Seq<T>, x: T, f: spec_fn(T) -> B, key: spec_fn(B) -> Seq<char>)
    requires
        forall|t: T| #[trigger] key(f(t)) == t.name_of(),
    ensures
        insert_by_name(s, x).map_values(f) == insert_by_key(s.map_values(f), f(x), key),
    decreases s.len(),
{
    let m = s.map_values(f);
    assert(key(f(x)) == x.name_of());
    if s.len() == 0 {
        assert(seq![x].map_values(f) =~= seq![f(x)]);
    } else {
        assert(key(f(s.last())) == s.last().name_of());
        assert(m.last() == f(s.last()));
        assert(m.drop_last() =~= s.drop_last().map_values(f));
        if name_before(x.name_of(), s.last().name_of()) {
            lemma_insert_map(s.drop_last(), x, f, key);
            assert(insert_by_name(s.drop_last(), x).push(s.last()).map_values(f)
                =~= insert_by_name(s.drop_last(), x).map_values(f).push(f(s.last())));
        } else {
            assert(s.push(x).map_values(f) =~= m.push(f(x)));
        }
    }
}

/// Sorting by name and then taking a view of each element gives the views sorted by a key
/// that reads the name from the view.
pub proof fn lemma_sorted_map<T: Named, B>(s: Seq<T>, f: spec_fn(T) -> B, key: spec_fn(B) -> Seq<char>)
    requires
        forall|t: T| #[trigger] key(f(t)) == t.name_of(),
    ensures
        sorted_by_name(s).map_values(f) == sorted_by_key(s.map_values(f), key),
    decreases s.len(),
{
    if s.len() == 0 {
        assert(s.map_values(f) =~= Seq::<B>::empty());
    } else {
        lemma_sorted_map(s.drop_last(), f, key);
        lemma_insert_map(sorted_by_name(s.drop_last()), s.last(), f, key);
        assert(s.map_values(f).drop_last() =~= s.drop_last().map_values(f));
        assert(s.map_values(f).last() == f(s.last()));
    }
}

/// The test that keeps elements not named `name`.
pub open spec fn named_other<T: Named>(name: Seq<char>) -> spec_fn(T) -> bool {
    |t: T| t.name_of() != name
}

/// Whether no element of `s` has a key sorting before that of an element ahead of it.
pub open spec fn keys_in_order<B>(s: Seq<B>, key: spec_fn(B) -> Seq<char>) -> bool {
    forall|i: int, j: int| 0 <= i < j < s.len() ==> !name_before(key(#[trigger] s[j]), key(#[trigger] s[i]))
}

proof fn lemma_insert_by_key_multiset<B>(s: Seq<B>, x: B, key: spec_fn(B) -> Seq<char>)
    ensures
        insert_by_key(s, x, key).to_multiset() =~= s.to_multiset().insert(x),
        insert_by_key(s, x, key).len() == s.len() + 1,
    decreases s.len(),
{
    broadcast use vstd::seq_lib::group_to_multiset_ensures;
    if s.len() == 0 {
        assert(seq![x] =~= s.push(x));
    } else if name_before(key(x), key(s.last())) {
        let t = s.drop_last();
        lemma_insert_by_key_multiset(t, x, key);
        assert(s =~= t.push(s.last()));
    }
}

proof fn lemma_insert_by_key_sorted<B>(s: Seq<B>, x: B, key: spec_fn(B) -> Seq<char>)
    requires
        keys_in_order(s, key),
    ensures
        keys_in_order(insert_by_key(s, x, key), key),
        forall|k: int| 0 <= k < insert_by_key(s, x, key).len() ==> (#[trigger] insert_by_key(s, x, key)[k] == x
            || s.contains(insert_by_key(s, x, key)[k])),
    decreases s.len(),
{
    let r = insert_by_key(s, x, key);
    lemma_insert_by_key_multiset(s, x, key);
    if s.len() == 0 {
    } else if name_before(key(x), key(s.last())) {
        let t = s.drop_last();
        let last = s.last();
        assert forall|i: int, j: int| 0 <= i < j < t.len() implies !name_before(key(#[trigger] t[j]), key(#[trigger] t[i])) by {
            assert(t[i] == s[i] && t[j] == s[j]);
        }
        lemma_insert_by_key_sorted(t, x, key);
        let u = insert_by_key(t, x, key);
        assert forall|i: int, j: int| 0 <= i < j < r.len() implies !name_before(key(#[trigger] r[j]), key(#[trigger] r[i])) by {
            if j == r.len() - 1 {
                assert(r[j] == last);
                assert(r[i] == u[i]);
                if u[i] == x {
                    if name_before(key(last), key(x)) {
                        lemma_name_before_transitive(key(x), key(last), key(x));
                        lemma_name_before_irreflexive(key(x));
                    }
                } else {
                    let k = choose|k: int| 0 <= k < t.len() && t[k] == u[i];
                    assert(t[k] == s[k]);
                    assert(!name_before(key(s[s.len() - 1]), key(s[k])));
                }
            } else {
                assert(r[i] == u[i] && r[j] == u[j]);
            }
        }
        assert forall|k: int| 0 <= k < r.len() implies (#[trigger] r[k] == x || s.contains(r[k])) by {
            if k == r.len() - 1 {
                assert(s[s.len() - 1] == r[k]);
            } else {
                assert(r[k] == u[k]);
                if u[k] != x {
                    let m = choose|m: int| 0 <= m < t.len() && t[m] == u[k];
                    assert(s[m] == t[m]);
                }
            }
        }
    } else {
        assert forall|i: int, j: int| 0 <= i < j < r.len() implies !name_before(key(#[trigger] r[j]), key(#[trigger] r[i])) by {
            if j == r.len() - 1 {
                assert(r[j] == x);
                if i < s.len() - 1 {
                    assert(!name_before(key(s[s.len() - 1]), key(s[i])));
                    lemma_not_before_transitive(key(s[i]), key(s[s.len() - 1]), key(x));
                }
            }
        }
        assert forall|k: int| 0 <= k < r.len() implies (#[trigger] r[k] == x || s.contains(r[k])) by {
            if k < s.len() {
                assert(r[k] == s[k]);
            }
        }
    }
}

/// A list sorted by key is in order of its keys, and holds the same elements as the list
/// it came from, each as often.
pub proof fn law_sorted_by_key_sorts<B>(s: Seq<B>, key: spec_fn(B) -> Seq<char>)
    ensures
        keys_in_order(sorted_by_key(s, key), key),
        sorted_by_key(s, key).to_multiset() =~= s.to_multiset(),
        sorted_by_key(s, key).len() == s.len(),
    decreases s.len(),
{
    broadcast use vstd::seq_lib::group_to_multiset_ensures;
    if s.len() > 0 {
        let t = s.drop_last();
        law_sorted_by_key_sorts(t, key);
        lemma_insert_by_key_sorted(sorted_by_key(t, key), s.last(), key);
        lemma_insert_by_key_multiset(sorted_by_key(t, key), s.last(), key);
        assert(s =~= t.push(s.last()));
    }
}

/// Keeps the elements of `v` whose name is not `name`, in order.
pub fn retain_other_names<T: Named>(v: &mut Vec<T>, name: &str)
    ensures
        final(v)@ == old(v)@.filter(named_other::<T>(name@)),
{
    let ghost pred = named_other::<T>(name@);
    let mut src: Vec<T> = Vec::new();
    std::mem::swap(v, &mut src);
    let ghost orig = src@;
    let ghost mut k: int = 0;
    let mut out: Vec<T> = Vec::new();
    proof {
        reveal(Seq::filter);
        assert(orig.take(0) =~= Seq::<T>::empty());
        assert(src@ =~= orig.skip(0));
    }
    while src.len() > 0
        invariant
            0 <= k <= orig.len(),
            src@ == orig.skip(k),
            pred == named_other::<T>(name@),
            out@ == orig.take(k).filter(pred),
        decreases src@.len(),
    {
        let x = src.remove(0);
        proof {
            assert(x == orig[k]);
            reveal(Seq::filter);
            assert(orig.take(k + 1).drop_last() =~= orig.take(k));
            assert(orig.take(k + 1).last() == x);
            assert(src@ =~= orig.skip(k + 1));
        }
        let other = !crate::name_set::same_text(x.name_str(), name);
        if other {
            out.push(x);
        }
        proof {
            k = k + 1;
        }
    }
    proof {
        assert(orig.take(k) =~= orig);
    }
    *v = out;
}

} // verus!
