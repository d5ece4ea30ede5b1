//! The labels under which requests are counted.

use vstd::prelude::*;
use vstd::string::*;

use crate::text::{text, to_chars};

verus! {

/// What follows the last slash of a path; all of it if there is none.
pub open spec fn method_of(path: Seq<char>) -> Seq<char>
    decreases path.len(),
{
    if path.len() == 0 || path.last() == '/' {
        Seq::empty()
    } else {
        method_of(path.drop_last()).push(path.last())
    }
}

/// The method label of a request: what follows the last slash of its path.
pub fn method_label(path: &str) -> (r: String)
    ensures
        r@ == method_of(path@),
{
    let chars = to_chars(path);
    let n: usize = chars.len();
    let mut from: usize = n;
    assert(path@.subrange(n as int, n as int) =~= Seq::<char>::empty());
    assert(path@.take(n as int) =~= path@);
    assert(method_of(path@) =~= method_of(path@) + path@.subrange(n as int, n as int));
    while from > 0 && chars[from - 1] != '/'
        invariant
            chars@ == path@,
            from <= n == path@.len(),
            method_of(path@) == method_of(path@.take(from as int)) + path@.subrange(
                from as int,
                n as int,
            ),
        decreases from,
    {
        proof {
            let head = path@.take(from as int);
            assert(head.drop_last() =~= path@.take(from - 1));
            assert(method_of(head) + path@.subrange(from as int, n as int) =~= method_of(
                path@.take(from - 1),
            ) + path@.subrange(from - 1, n as int));
        }
        from = from - 1;
    }
    proof {
        let head = path@.take(from as int);
        assert(method_of(head) =~= Seq::<char>::empty());
        assert(method_of(path@) =~= path@.subrange(from as int, n as int));
    }
    text(path.substring_char(from, n))
}

/// The code label of a request: whether its HTTP status is one of success. There
/// is none if the request failed.
pub fn code_label(status: Option<u16>) -> (r: &'static str)
    ensures
        r@ == if status is Some && 200 <= status->Some_0 < 300 {
            "OK"@
        } else {
            "ERROR"@
        },
{
    match status {
        Some(code) => if 200 <= code && code < 300 {
            "OK"
        } else {
            "ERROR"
        },
        None => "ERROR",
    }
}

/// The method of a path is all that follows its last slash, and the whole path if
/// it has none.
pub proof fn method_follows_the_last_slash(path: Seq<char>)
    ensures
        ({
            let method = method_of(path);
            let n = path.len() - method.len();
            &&& 0 <= n <= path.len()
            &&& path.skip(n) == method
            &&& forall|i: int| 0 <= i < method.len() ==> #[trigger] method[i] != '/'
            &&& n > 0 ==> path[n - 1] == '/'
        }),
    decreases path.len(),
{
    if path.len() > 0 && path.last() != '/' {
        let rest = path.drop_last();
        method_follows_the_last_slash(rest);
        let n = path.len() - method_of(path).len();
        assert(path.skip(n) =~= rest.skip(n).push(path.last()));
        if n > 0 {
            assert(path[n - 1] == rest[n - 1]);
        }
    } else {
        assert(path.skip(path.len() as int) =~= Seq::<char>::empty());
    }
}

} // verus!
