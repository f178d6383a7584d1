use vstd::prelude::*;
use vstd::string::StrSliceExecFns;

verus! {

/// Index of the first occurrence of `c` in `s`.
pub open spec fn find_char(s: Seq<char>, c: char) -> Option<int>
    decreases s.len(),
{
    if s.len() == 0 {
        None
    } else if s[0] == c {
        Some(0)
    } else {
        match find_char(s.skip(1), c) {
            Some(i) => Some(i + 1),
            None => None,
        }
    }
}

pub proof fn lemma_find_char(s: Seq<char>, c: char)
    ensures
        find_char(s, c) matches Some(i) ==> 0 <= i < s.len() && s[i] == c && forall|j: int|
            0 <= j < i ==> s[j] != c,
        find_char(s, c) is None ==> forall|j: int| 0 <= j < s.len() ==> s[j] != c,
    decreases s.len(),
{
    if s.len() > 0 {
        lemma_find_char(s.skip(1), c);
        if s[0] != c {
            assert forall|j: int| 1 <= j < s.len() implies s[j] == s.skip(1)[j - 1] by {}
        }
    }
}

/// The key/value pairs of a query string: the string is cut at every `&`;
/// each piece that holds a `=` gives the pair of what stands before its first
/// `=` and what stands after it; a piece without `=` gives nothing.
pub open spec fn query_pairs(q: Seq<char>) -> Seq<(Seq<char>, Seq<char>)>
    decreases q.len(),
{
    let amp = find_char(q, '&');
    let piece = match amp {
        Some(i) => q.take(i),
        None => q,
    };
    let head = match find_char(piece, '=') {
        Some(e) => seq![(piece.take(e), piece.skip(e + 1))],
        None => Seq::empty(),
    };
    match amp {
        Some(i) => {
            if 0 <= i < q.len() {
                head + query_pairs(q.skip(i + 1))
            } else {
                head
            }
        },
        None => head,
    }
}

/// The views of a list of owned string pairs.
pub open spec fn pair_views(s: Seq<(String, String)>) -> Seq<(Seq<char>, Seq<char>)> {
    s.map_values(|p: (String, String)| (p.0@, p.1@))
}

/// The value that a map built from `pairs` in order holds for `key`: that of
/// the last pair with this key.
pub open spec fn last_value(pairs: Seq<(Seq<char>, Seq<char>)>, key: Seq<char>) -> Option<Seq<char>>
    decreases pairs.len(),
{
    if pairs.len() == 0 {
        None
    } else if pairs.last().0 == key {
        Some(pairs.last().1)
    } else {
        last_value(pairs.drop_last(), key)
    }
}

/// Index of the first `c` in `s`.
pub fn find_char_in(s: &str, c: char) -> (r: Option<usize>)
    ensures
        r matches Some(i) ==> find_char(s@, c) == Some(i as int),
        r is None ==> find_char(s@, c) is None,
{
    proof { lemma_find_char(s@, c); }
    let n: usize = s.unicode_len();
    let mut i: usize = 0;
    while i < n
        invariant
            n == s@.len(),
            i <= n,
            forall|j: int| 0 <= j < i ==> s@[j] != c,
            find_char(s@, c) matches Some(k) ==> 0 <= k < s@.len() && s@[k] == c && forall|j: int|
                0 <= j < k ==> s@[j] != c,
            find_char(s@, c) is None ==> forall|j: int| 0 <= j < s@.len() ==> s@[j] != c,
        decreases n - i,
    {
        if s.get_char(i) == c {
            return Some(i);
        }
        i = i + 1;
    }
    None
}

/// Parses a query string into its key/value pairs, in order.  Read through
/// `query_value`, later pairs override earlier ones with the same key.
pub fn parse_query(query: &str) -> (r: Vec<(String, String)>)
    ensures
        pair_views(r@) == query_pairs(query@),
    decreases query@.len(),
{
    proof { lemma_find_char(query@, '&'); }
    let n: usize = query.unicode_len();
    let amp = find_char_in(query, '&');
    let piece_len: usize = match amp {
        Some(i) => i,
        None => n,
    };
    let piece = query.substring_char(0, piece_len);
    assert(piece@ == match find_char(query@, '&') {
        Some(i) => query@.take(i),
        None => query@,
    });
    let mut r: Vec<(String, String)> = Vec::new();
    match find_char_in(piece, '=') {
        Some(e) => {
            proof { lemma_find_char(piece@, '='); }
            let k = piece.substring_char(0, e).to_owned();
            let v = piece.substring_char(e + 1, piece_len).to_owned();
            r.push((k, v));
        },
        None => {},
    }
    assert(pair_views(r@) =~= match find_char(piece@, '=') {
        Some(e) => seq![(piece@.take(e), piece@.skip(e + 1))],
        None => Seq::<(Seq<char>, Seq<char>)>::empty(),
    });
    match amp {
        Some(i) => {
            proof { lemma_find_char(query@, '&'); }
            let rest = query.substring_char(i + 1, n);
            let mut tail = parse_query(rest);
            let ghost r0 = r@;
            r.append(&mut tail);
            assert(pair_views(r@) =~= pair_views(r0) + query_pairs(rest@));
        },
        None => {},
    }
    r
}

/// The value of the query parameter `key` among `pairs`: the last one given.
pub fn query_value<'a>(pairs: &'a Vec<(String, String)>, key: &str) -> (r: Option<&'a String>)
    ensures
        r is Some <==> last_value(pair_views(pairs@), key@) is Some,
        r matches Some(v) ==> last_value(pair_views(pairs@), key@) == Some(v@),
{
    let mut i: usize = pairs.len();
    assert(pairs@.take(i as int) =~= pairs@);
    while i > 0
        invariant
            i <= pairs@.len(),
            last_value(pair_views(pairs@), key@) == last_value(pair_views(pairs@.take(i as int)), key@),
        decreases i,
    {
        let ghost pv = pair_views(pairs@.take(i as int));
        assert(pv.drop_last() =~= pair_views(pairs@.take(i - 1)));
        if crate::text::str_equal(pairs[i - 1].0.as_str(), key) {
            return Some(&pairs[i - 1].1);
        }
        i = i - 1;
    }
    None
}

} // verus!

verus! {

/// The first index that holds `c` is what `find_char` finds.
pub proof fn lemma_find_char_is(s: Seq<char>, c: char, i: int)
    requires
        0 <= i < s.len(),
        s[i] == c,
        forall|j: int| 0 <= j < i ==> s[j] != c,
    ensures
        find_char(s, c) == Some(i),
    decreases i,
{
    if i > 0 {
        assert forall|j: int| 0 <= j < i - 1 implies s.skip(1)[j] != c by {
            assert(s.skip(1)[j] == s[j + 1]);
        }
        lemma_find_char_is(s.skip(1), c, i - 1);
    }
}

/// A string without `c` gives `find_char` nothing.
pub proof fn lemma_find_char_none(s: Seq<char>, c: char)
    requires
        forall|j: int| 0 <= j < s.len() ==> s[j] != c,
    ensures
        find_char(s, c) is None,
    decreases s.len(),
{
    if s.len() > 0 {
        assert forall|j: int| 0 <= j < s.len() - 1 implies s.skip(1)[j] != c by {
            assert(s.skip(1)[j] == s[j + 1]);
        }
        lemma_find_char_none(s.skip(1), c);
    }
}

/// Joining two query strings with `&` joins their pairs.
pub proof fn law_query_concat(a: Seq<char>, b: Seq<char>)
    ensures
        query_pairs(a + seq!['&'] + b) == query_pairs(a) + query_pairs(b),
    decreases a.len(),
{
    let q = a + seq!['&'] + b;
    lemma_find_char(a, '&');
    match find_char(a, '&') {
        Some(i) => {
            assert forall|j: int| 0 <= j < i implies q[j] != '&' by {
                assert(q[j] == a[j]);
            }
            lemma_find_char_is(q, '&', i);
            assert(q.take(i) =~= a.take(i));
            assert(q.skip(i + 1) =~= a.skip(i + 1) + seq!['&'] + b);
            law_query_concat(a.skip(i + 1), b);
            let piece = a.take(i);
            let head = match find_char(piece, '=') {
                Some(e) => seq![(piece.take(e), piece.skip(e + 1))],
                None => Seq::<(Seq<char>, Seq<char>)>::empty(),
            };
            assert(query_pairs(q) == head + query_pairs(q.skip(i + 1)));
            assert(query_pairs(a) == head + query_pairs(a.skip(i + 1)));
            assert(query_pairs(q) =~= query_pairs(a) + query_pairs(b));
        },
        None => {
            assert forall|j: int| 0 <= j < a.len() implies q[j] != '&' by {
                assert(q[j] == a[j]);
            }
            lemma_find_char_is(q, '&', a.len() as int);
            assert(q.take(a.len() as int) =~= a);
            assert(q.skip(a.len() as int + 1) =~= b);
            let head = match find_char(a, '=') {
                Some(e) => seq![(a.take(e), a.skip(e + 1))],
                None => Seq::<(Seq<char>, Seq<char>)>::empty(),
            };
            assert(query_pairs(q) == head + query_pairs(b));
            assert(query_pairs(a) == head);
        },
    }
}

/// A query string made of one `key=value`, where the key holds neither `&`
/// nor `=` and the value holds no `&`, gives that one pair.
pub proof fn law_single_pair(key: Seq<char>, value: Seq<char>)
    requires
        forall|j: int| 0 <= j < key.len() ==> key[j] != '&' && key[j] != '=',
        forall|j: int| 0 <= j < value.len() ==> value[j] != '&',
    ensures
        query_pairs(key + seq!['='] + value) == seq![(key, value)],
{
    let q = key + seq!['='] + value;
    assert forall|j: int| 0 <= j < q.len() implies q[j] != '&' by {
        if j < key.len() {
            assert(q[j] == key[j]);
        } else if j > key.len() {
            assert(q[j] == value[j - key.len() - 1]);
        }
    }
    lemma_find_char_none(q, '&');
    assert forall|j: int| 0 <= j < key.len() implies q[j] != '=' by {
        assert(q[j] == key[j]);
    }
    lemma_find_char_is(q, '=', key.len() as int);
    assert(q.take(key.len() as int) =~= key);
    assert(q.skip(key.len() as int + 1) =~= value);
}

/// When a parameter is given again at the end of a query, that last value
/// is the one the parameter has; earlier values are overwritten.
pub proof fn law_last_value_wins(q: Seq<char>, key: Seq<char>, value: Seq<char>)
    requires
        forall|j: int| 0 <= j < key.len() ==> key[j] != '&' && key[j] != '=',
        forall|j: int| 0 <= j < value.len() ==> value[j] != '&',
    ensures
        last_value(query_pairs(q + seq!['&'] + key + seq!['='] + value), key) == Some(value),
{
    let tail = key + seq!['='] + value;
    assert(q + seq!['&'] + key + seq!['='] + value =~= q + seq!['&'] + tail);
    law_query_concat(q, tail);
    law_single_pair(key, value);
    let pairs = query_pairs(q) + seq![(key, value)];
    assert(pairs.last() == (key, value));
}

/// The value of a key among pairs is the value of the last pair with that
/// key, and there is one exactly when some pair has the key.
pub proof fn law_last_value_is_the_last_pair(pairs: Seq<(Seq<char>, Seq<char>)>, key: Seq<char>)
    ensures
        last_value(pairs, key) is Some <==> exists|i: int| 0 <= i < pairs.len() && (#[trigger] pairs[i]).0 == key,
        last_value(pairs, key) matches Some(v) ==> exists|i: int|
            0 <= i < pairs.len() && pairs[i] == (key, v) && forall|j: int|
                i < j < pairs.len() ==> (#[trigger] pairs[j]).0 != key,
    decreases pairs.len(),
{
    if pairs.len() > 0 {
        let init = pairs.drop_last();
        law_last_value_is_the_last_pair(init, key);
        if pairs.last().0 == key {
            assert(pairs[pairs.len() - 1].0 == key);
        } else {
            if exists|i: int| 0 <= i < pairs.len() && (#[trigger] pairs[i]).0 == key {
                let i = choose|i: int| 0 <= i < pairs.len() && (#[trigger] pairs[i]).0 == key;
                assert(init[i] == pairs[i]);
            }
            if exists|i: int| 0 <= i < init.len() && (#[trigger] init[i]).0 == key {
                let i = choose|i: int| 0 <= i < init.len() && (#[trigger] init[i]).0 == key;
                assert(init[i] == pairs[i]);
            }
            if let Some(v) = last_value(init, key) {
                let i = choose|i: int|
                    0 <= i < init.len() && init[i] == (key, v) && forall|j: int|
                        i < j < init.len() ==> (#[trigger] init[j]).0 != key;
                assert(pairs[i] == init[i]);
                assert forall|j: int| i < j < pairs.len() implies (#[trigger] pairs[j]).0 != key by {
                    if j < pairs.len() - 1 {
                        assert(pairs[j] == init[j]);
                    }
                }
            }
        }
    }
}

} // verus!
