use vstd::prelude::*;
use vstd::string::{StrSliceExecFns, StringExecFns};

verus! {

/// A URL assembly that cannot be carried out: the offending pieces are kept.
#[derive(Debug, PartialEq)]
pub struct BuildUrlError {
    pub base_url: String,
    pub path: String,
}

/// A character that may stand in a query token without any escaping.
pub open spec fn url_safe_char(c: char) -> bool {
    ||| ('a' as u32) <= (c as u32) && (c as u32) <= ('z' as u32)
    ||| ('A' as u32) <= (c as u32) && (c as u32) <= ('Z' as u32)
    ||| ('0' as u32) <= (c as u32) && (c as u32) <= ('9' as u32)
    ||| c == '-'
    ||| c == '_'
    ||| c == '.'
    ||| c == '~'
}

/// A query token every character of which is url-safe.
pub open spec fn url_safe(s: Seq<char>) -> bool {
    forall|i: int| 0 <= i < s.len() ==> url_safe_char(#[trigger] s[i])
}

/// The query suffix: `?` before the first pair, `&` before each later one,
/// `=` between key and value.
pub open spec fn query_text(qs: Seq<(Seq<char>, Seq<char>)>) -> Seq<char>
    decreases qs.len(),
{
    if qs.len() == 0 {
        Seq::empty()
    } else {
        query_text(qs.drop_last()) + seq![
            if qs.len() == 1 {
                '?'
            } else {
                '&'
            },
        ] + qs.last().0 + seq!['='] + qs.last().1
    }
}

/// The full request URL: the base, the relative path, the query suffix.
pub open spec fn url_text(
    base: Seq<char>,
    path: Seq<char>,
    qs: Seq<(Seq<char>, Seq<char>)>,
) -> Seq<char> {
    base + path + query_text(qs)
}

/// The shape the assembly accepts: a base that ends in a slash, a path that
/// does not start with one, and url-safe query tokens.
pub open spec fn url_parts_ok(
    base: Seq<char>,
    path: Seq<char>,
    qs: Seq<(Seq<char>, Seq<char>)>,
) -> bool {
    &&& base.len() > 0
    &&& base.last() == '/'
    &&& (path.len() == 0 || path[0] != '/')
    &&& forall|i: int| 0 <= i < qs.len() ==> url_safe((#[trigger] qs[i]).0) && url_safe(qs[i].1)
}

/// The query pairs a vector of string pairs denotes.
pub open spec fn query_views(qs: Seq<(String, String)>) -> Seq<(Seq<char>, Seq<char>)> {
    Seq::new(qs.len(), |i: int| (qs[i].0@, qs[i].1@))
}

/// True when every character of the token is url-safe.
fn check_url_safe(s: &str) -> (r: bool)
    ensures
        r == url_safe(s@),
{
    let n = s.unicode_len();
    let mut i: usize = 0;
    while i < n
        invariant
            0 <= i <= n == s@.len(),
            forall|k: int| 0 <= k < i ==> url_safe_char(#[trigger] s@[k]),
        decreases n - i,
    {
        let c = s.get_char(i);
        let u = c as u32;
        let ok = (97 <= u && u <= 122) || (65 <= u && u <= 90) || (48 <= u && u <= 57) || c == '-'
            || c == '_' || c == '.' || c == '~';
        if !ok {
            proof {
                assert(!url_safe_char(s@[i as int]));
            }
            return false;
        }
        i += 1;
    }
    true
}

/// Assembles one request URL from the base, a relative path and query pairs.
/// Succeeds exactly when the parts have the accepted shape; the result is
/// the base, the path, then the query suffix, verbatim.
pub fn build_url(base: &str, path: &str, queries: &Vec<(String, String)>) -> (r: Result<
    String,
    BuildUrlError,
>)
    ensures
        match r {
            Ok(u) => url_parts_ok(base@, path@, query_views(queries@)) && u@ == url_text(
                base@,
                path@,
                query_views(queries@),
            ),
            Err(e) => !url_parts_ok(base@, path@, query_views(queries@)) && e.base_url@ == base@
                && e.path@ == path@,
        },
{
    broadcast use vstd::string::group_string_axioms;

    let base_len = base.unicode_len();
    let shape_ok: bool = if base_len == 0 {
        false
    } else if base.get_char(base_len - 1) != '/' {
        false
    } else if path.unicode_len() > 0 && path.get_char(0) == '/' {
        false
    } else {
        true
    };
    if !shape_ok {
        return Err(BuildUrlError { base_url: base.to_owned(), path: path.to_owned() });
    }
    let mut q: usize = 0;
    while q < queries.len()
        invariant
            0 <= q <= queries@.len(),
            url_parts_ok(base@, path@, query_views(queries@).take(q as int)),
            base@.len() > 0 && base@.last() == '/' && (path@.len() == 0 || path@[0] != '/'),
        decreases queries@.len() - q,
    {
        if !check_url_safe(queries[q].0.as_str()) || !check_url_safe(queries[q].1.as_str()) {
            proof {
                assert(!(url_safe(query_views(queries@)[q as int].0) && url_safe(
                    query_views(queries@)[q as int].1,
                )));
            }
            return Err(BuildUrlError { base_url: base.to_owned(), path: path.to_owned() });
        }
        proof {
            let qv = query_views(queries@);
            assert forall|i: int| 0 <= i < q + 1 implies url_safe((#[trigger] qv.take(q + 1)[i]).0)
                && url_safe(qv.take(q + 1)[i].1) by {
                if i < q {
                    assert(qv.take(q as int)[i] == qv.take(q + 1)[i]);
                    assert(url_safe(qv.take(q as int)[i].0) && url_safe(qv.take(q as int)[i].1));
                }
            }
        }
        q += 1;
    }
    proof {
        let qv = query_views(queries@);
        assert(qv.take(queries@.len() as int) =~= qv);
    }
    let mut url: String = base.to_owned();
    url.append(path);
    let mut k: usize = 0;
    while k < queries.len()
        invariant
            0 <= k <= queries@.len(),
            url@ == url_text(base@, path@, query_views(queries@).take(k as int)),
        decreases queries@.len() - k,
    {
        if k == 0 {
            url.append("?");
        } else {
            url.append("&");
        }
        url.append(queries[k].0.as_str());
        url.append("=");
        url.append(queries[k].1.as_str());
        proof {
            reveal_strlit("?");
            reveal_strlit("&");
            reveal_strlit("=");
            assert("?"@ =~= seq!['?']);
            assert("&"@ =~= seq!['&']);
            assert("="@ =~= seq!['=']);
            let qv = query_views(queries@);
            let cur = qv.take(k + 1);
            assert(cur.drop_last() =~= qv.take(k as int));
            assert(cur.last() == qv[k as int]);
            assert(url@ =~= url_text(base@, path@, cur));
        }
        k += 1;
    }
    proof {
        assert(query_views(queries@).take(queries@.len() as int) =~= query_views(queries@));
    }
    Ok(url)
}

} // verus!
