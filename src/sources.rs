use vstd::prelude::*;
use crate::convert::last_dot;
use crate::error::RepubError;

verus! {

/// Extension of a file name: what follows its last dot, unless that dot leads
/// the name or there is none.
pub open spec fn file_extension(s: Seq<char>) -> Option<Seq<char>> {
    if last_dot(s) <= 0 {
        None
    } else {
        Some(s.skip(last_dot(s) + 1))
    }
}

pub open spec fn is_markdown_name(s: Seq<char>) -> bool {
    file_extension(s) == Some("md"@)
}

/// `a` comes before `b` in lexicographic order of characters.
pub open spec fn lex_lt(a: Seq<char>, b: Seq<char>) -> bool
    decreases a.len(),
{
    if a.len() == 0 {
        b.len() > 0
    } else if b.len() == 0 {
        false
    } else if a[0] != b[0] {
        a[0] < b[0]
    } else {
        lex_lt(a.skip(1), b.skip(1))
    }
}

/// Inserts `x` before the first element that it comes before.
pub open spec fn sorted_insert(s: Seq<Seq<char>>, x: Seq<char>) -> Seq<Seq<char>>
    decreases s.len(),
{
    if s.len() == 0 {
        seq![x]
    } else if lex_lt(x, s[0]) {
        seq![x] + s
    } else {
        seq![s[0]] + sorted_insert(s.skip(1), x)
    }
}

/// The Markdown names among `names`, in lexicographic order.
pub open spec fn markdown_sources(names: Seq<Seq<char>>) -> Seq<Seq<char>>
    decreases names.len(),
{
    if names.len() == 0 {
        Seq::empty()
    } else if is_markdown_name(names.last()) {
        sorted_insert(markdown_sources(names.drop_last()), names.last())
    } else {
        markdown_sources(names.drop_last())
    }
}

pub open spec fn lex_sorted(s: Seq<Seq<char>>) -> bool {
    forall|i: int, j: int| 0 <= i < j < s.len() ==> !lex_lt(#[trigger] s[j], #[trigger] s[i])
}

proof fn lemma_lex_total(a: Seq<char>, b: Seq<char>)
    ensures
        !lex_lt(a, b) ==> lex_lt(b, a) || a == b,
        lex_lt(a, b) ==> !lex_lt(b, a),
    decreases a.len(),
{
    if a.len() > 0 && b.len() > 0 && a[0] == b[0] {
        lemma_lex_total(a.skip(1), b.skip(1));
        if a.skip(1) == b.skip(1) {
            assert(a =~= seq![a[0]] + a.skip(1));
            assert(b =~= seq![b[0]] + b.skip(1));
        }
    } else if a.len() == 0 && b.len() == 0 {
        assert(a =~= b);
    }
}

proof fn lemma_lex_trans(a: Seq<char>, b: Seq<char>, c: Seq<char>)
    requires
        !lex_lt(b, a),
        !lex_lt(c, b),
    ensures
        !lex_lt(c, a),
    decreases a.len(),
{
    if a.len() > 0 && b.len() > 0 && c.len() > 0 && a[0] == b[0] && b[0] == c[0] {
        lemma_lex_trans(a.skip(1), b.skip(1), c.skip(1));
    }
}

proof fn lemma_sorted_insert(s: Seq<Seq<char>>, x: Seq<char>)
    requires
        lex_sorted(s),
    ensures
        lex_sorted(sorted_insert(s, x)),
        sorted_insert(s, x).to_multiset() == s.to_multiset().insert(x),
        sorted_insert(s, x).len() == s.len() + 1,
        forall|y: Seq<char>| #[trigger] sorted_insert(s, x).contains(y) <==> (s.contains(y) || y == x),
    decreases s.len(),
{
    broadcast use vstd::seq_lib::group_to_multiset_ensures;
    let r = sorted_insert(s, x);
    if s.len() == 0 {
        assert(r =~= s.push(x));
        assert forall|y: Seq<char>| #[trigger] r.contains(y) <==> (s.contains(y) || y == x) by {
            if y == x {
                assert(r[0] == y);
            }
        }
    } else if lex_lt(x, s[0]) {
        assert(r =~= seq![x] + s);
        assert forall|i: int, j: int| 0 <= i < j < r.len() implies !lex_lt(#[trigger] r[j], #[trigger] r[i]) by {
            if i == 0 {
                lemma_lex_total(x, s[j - 1]);
                if j - 1 > 0 {
                    lemma_lex_total(x, s[0]);
                    lemma_lex_trans(x, s[0], s[j - 1]);
                }
            }
        }
        vstd::seq_lib::lemma_multiset_commutative(seq![x], s);
        assert(seq![x] + s =~= s.insert(0, x));
        assert(forall|y: Seq<char>| r.contains(y) <==> (s.contains(y) || y == x)) by {
            assert forall|y: Seq<char>| r.contains(y) implies (s.contains(y) || y == x) by {
                let k = choose|k: int| 0 <= k < r.len() && r[k] == y;
                if k > 0 {
                    assert(s[k - 1] == y);
                }
            }
            assert forall|y: Seq<char>| s.contains(y) || y == x implies r.contains(y) by {
                if y == x {
                    assert(r[0] == y);
                } else {
                    let k = choose|k: int| 0 <= k < s.len() && s[k] == y;
                    assert(r[k + 1] == y);
                }
            }
        }
    } else {
        let t = s.skip(1);
        assert(lex_sorted(t));
        lemma_sorted_insert(t, x);
        let u = sorted_insert(t, x);
        assert(r =~= seq![s[0]] + u);
        assert(s =~= seq![s[0]] + t);
        assert forall|i: int, j: int| 0 <= i < j < r.len() implies !lex_lt(#[trigger] r[j], #[trigger] r[i]) by {
            if i == 0 {
                let y = u[j - 1];
                assert(u.contains(y));
                if y == x {
                    lemma_lex_total(x, s[0]);
                } else {
                    assert(t.contains(y));
                    let k = choose|k: int| 0 <= k < t.len() && t[k] == y;
                    assert(s[k + 1] == y);
                }
            }
        }
        vstd::seq_lib::lemma_multiset_commutative(seq![s[0]], u);
        vstd::seq_lib::lemma_multiset_commutative(seq![s[0]], t);
        assert(forall|y: Seq<char>| r.contains(y) <==> (s.contains(y) || y == x)) by {
            assert forall|y: Seq<char>| r.contains(y) implies (s.contains(y) || y == x) by {
                let k = choose|k: int| 0 <= k < r.len() && r[k] == y;
                if k > 0 {
                    assert(u.contains(y));
                    if y != x {
                        assert(t.contains(y));
                        let m = choose|m: int| 0 <= m < t.len() && t[m] == y;
                        assert(s[m + 1] == y);
                    }
                } else {
                    assert(s[0] == y);
                }
            }
            assert forall|y: Seq<char>| s.contains(y) || y == x implies r.contains(y) by {
                if y == x {
                    assert(u.contains(y));
                    let k = choose|k: int| 0 <= k < u.len() && u[k] == y;
                    assert(r[k + 1] == y);
                } else {
                    let k = choose|k: int| 0 <= k < s.len() && s[k] == y;
                    if k == 0 {
                        assert(r[0] == y);
                    } else {
                        assert(t[k - 1] == y);
                        assert(u.contains(y));
                        let m = choose|m: int| 0 <= m < u.len() && u[m] == y;
                        assert(r[m + 1] == y);
                    }
                }
            }
        }
    }
}

/// The documents a directory contributes are its Markdown files, each once,
/// in lexicographic order.
pub proof fn markdown_sources_sorted(names: Seq<Seq<char>>)
    ensures
        lex_sorted(markdown_sources(names)),
        forall|y: Seq<char>|
            #[trigger] markdown_sources(names).contains(y) <==> (names.contains(y) && is_markdown_name(
                y,
            )),
    decreases names.len(),
{
    if names.len() > 0 {
        let prev = names.drop_last();
        markdown_sources_sorted(prev);
        if is_markdown_name(names.last()) {
            lemma_sorted_insert(markdown_sources(prev), names.last());
            assert(markdown_sources(names) == sorted_insert(markdown_sources(prev), names.last()));
        } else {
            assert(markdown_sources(names) == markdown_sources(prev));
        }
        assert forall|y: Seq<char>| names.contains(y) <==> (prev.contains(y) || y == names.last()) by {
            if names.contains(y) {
                let k = choose|k: int| 0 <= k < names.len() && names[k] == y;
                if k < names.len() - 1 {
                    assert(prev[k] == y);
                }
            }
            if prev.contains(y) {
                let k = choose|k: int| 0 <= k < prev.len() && prev[k] == y;
                assert(names[k] == y);
            }
        }
        assert forall|y: Seq<char>|
            markdown_sources(names).contains(y) <==> (names.contains(y) && is_markdown_name(y)) by {
            if is_markdown_name(names.last()) {
                assert(markdown_sources(names).contains(y) <==> (markdown_sources(prev).contains(y)
                    || y == names.last()));
            }
        }
    }
}

/// Whether `a` comes before `b` in lexicographic order of characters.
pub fn lex_less(a: &str, b: &str) -> (r: bool)
    ensures
        r == lex_lt(a@, b@),
{
    let n = a.unicode_len();
    let m = b.unicode_len();
    let mut i: usize = 0;
    assert(a@.skip(0) =~= a@);
    assert(b@.skip(0) =~= b@);
    while i < n && i < m
        invariant
            n == a@.len(),
            m == b@.len(),
            i <= n,
            i <= m,
            lex_lt(a@, b@) == lex_lt(a@.skip(i as int), b@.skip(i as int)),
        decreases n - i,
    {
        let x = a.get_char(i);
        let y = b.get_char(i);
        assert(a@.skip(i as int)[0] == x);
        assert(b@.skip(i as int)[0] == y);
        if x != y {
            return x < y;
        }
        assert(a@.skip(i as int).skip(1) =~= a@.skip(i as int + 1));
        assert(b@.skip(i as int).skip(1) =~= b@.skip(i as int + 1));
        i = i + 1;
    }
    i == n && i < m
}

/// Whether a file name has the `md` extension.
pub fn is_markdown_file(name: &str) -> (r: bool)
    ensures
        r == is_markdown_name(name@),
{
    proof {
        reveal_strlit("md");
    }
    let n = name.unicode_len();
    let mut last: usize = 0;
    let mut found = false;
    let mut i: usize = 0;
    while i < n
        invariant
            n == name@.len(),
            i <= n,
            found ==> last == last_dot(name@.take(i as int)) && last < i,
            !found ==> last_dot(name@.take(i as int)) == -1,
        decreases n - i,
    {
        assert(name@.take(i as int + 1).drop_last() =~= name@.take(i as int));
        assert(name@.take(i as int + 1).last() == name@[i as int]);
        if name.get_char(i) == '.' {
            last = i;
            found = true;
        }
        i = i + 1;
    }
    assert(name@.take(n as int) =~= name@);
    if !found || last == 0 {
        return false;
    }
    let ghost ext = name@.skip(last as int + 1);
    if n - last != 3 {
        assert(ext.len() != 2);
        return false;
    }
    let r = name.get_char(last + 1) == 'm' && name.get_char(last + 2) == 'd';
    assert(r ==> ext =~= "md"@);
    assert(ext =~= "md"@ ==> ext[0] == 'm' && ext[1] == 'd');
    r
}

/// Checks a single input file: one with an extension other than `md` is refused.
pub fn check_source_file(name: &str) -> (r: Result<(), RepubError>)
    ensures
        r is Ok <==> (file_extension(name@) is None || is_markdown_name(name@)),
        r is Err ==> r == Err::<(), RepubError>(RepubError::InvalidInputPath),
{
    proof {
        reveal_strlit("md");
    }
    if is_markdown_file(name) {
        return Ok(());
    }
    let n = name.unicode_len();
    let mut i: usize = 0;
    let mut has_inner_dot = false;
    while i < n
        invariant
            n == name@.len(),
            i <= n,
            has_inner_dot <==> last_dot(name@.take(i as int)) > 0,
        decreases n - i,
    {
        assert(name@.take(i as int + 1).drop_last() =~= name@.take(i as int));
        assert(name@.take(i as int + 1).last() == name@[i as int]);
        if i > 0 && name.get_char(i) == '.' {
            has_inner_dot = true;
        }
        i = i + 1;
    }
    assert(name@.take(n as int) =~= name@);
    if has_inner_dot {
        Err(RepubError::InvalidInputPath)
    } else {
        Ok(())
    }
}

/// The Markdown files among the entries of a directory, in lexicographic order.
pub fn select_sources(names: Vec<String>) -> (r: Vec<String>)
    ensures
        r@.map_values(|s: String| s@) == markdown_sources(names@.map_values(|s: String| s@)),
{
    let ghost views = names@.map_values(|s: String| s@);
    let mut names = names;
    let mut r: Vec<String> = Vec::new();
    let mut i: usize = 0;
    let n = names.len();
    while i < n
        invariant
            n == names@.len(),
            views.len() == n,
            forall|k: int| i <= k < n ==> #[trigger] names@[k]@ == views[k],
            i <= n,
            r@.map_values(|s: String| s@) == markdown_sources(views.take(i as int)),
        decreases n - i,
    {
        assert(views.take(i as int + 1).drop_last() =~= views.take(i as int));
        let mut name = String::new();
        std::mem::swap(&mut name, &mut names[i]);
        assert(name@ == views[i as int]);
        if is_markdown_file(name.as_str()) {
            let ghost before = r@.map_values(|s: String| s@);
            let mut j: usize = 0;
            assert(before.skip(0) =~= before);
            assert(before.take(0) =~= Seq::<Seq<char>>::empty());
            while j < r.len() && !lex_less(name.as_str(), r[j].as_str())
                invariant
                    j <= r@.len(),
                    before == r@.map_values(|s: String| s@),
                    sorted_insert(before, name@) == before.take(j as int) + sorted_insert(before.skip(j as int), name@),
                decreases r@.len() - j,
            {
                assert(before.skip(j as int)[0] == r@[j as int]@);
                assert(before.skip(j as int).skip(1) =~= before.skip(j as int + 1));
                assert(before.take(j as int + 1) =~= before.take(j as int) + seq![before[j as int]]);
                j = j + 1;
            }
            if j < r.len() {
                assert(before.skip(j as int)[0] == r@[j as int]@);
            } else {
                assert(before.skip(j as int) =~= Seq::<Seq<char>>::empty());
            }
            r.insert(j, name);
            assert(r@.map_values(|s: String| s@) =~= sorted_insert(before, views[i as int]));
        }
        i = i + 1;
    }
    assert(views.take(n as int) =~= views);
    r
}

} // verus!
