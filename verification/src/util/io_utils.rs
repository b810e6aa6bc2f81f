use vstd::prelude::*;
use crate::util::chars::{chars_of, chars_replace, is_prefix, replace_all, string_of};

verus! {

/// `path` with every backslash replaced by a slash.
pub fn name_separators_to_native(path: &str) -> (r: String)
    ensures
        r@ == replace_all(path@, seq!['\\'], seq!['/']),
{
    let p = chars_of(path);
    let mut from: Vec<char> = Vec::new();
    from.push('\\');
    let mut to: Vec<char> = Vec::new();
    to.push('/');
    proof {
        assert(from@ =~= seq!['\\']);
        assert(to@ =~= seq!['/']);
    }
    let v = chars_replace(p.as_slice(), from.as_slice(), to.as_slice());
    string_of(v.as_slice())
}


/// A path made native has no backslash left, and is as long as before.
pub proof fn law_native_separators(path: Seq<char>)
    ensures
        !replace_all(path, seq!['\\'], seq!['/']).contains('\\'),
        replace_all(path, seq!['\\'], seq!['/']).len() == path.len(),
    decreases path.len(),
{
    let r = replace_all(path, seq!['\\'], seq!['/']);
    if path.len() > 0 {
        let rest = path.subrange(1, path.len() as int);
        law_native_separators(rest);
        let rr = replace_all(rest, seq!['\\'], seq!['/']);
        if is_prefix(seq!['\\'], path) {
            assert(r == seq!['/'] + rr);
        } else {
            assert(path.subrange(0, 1) =~= seq![path[0]]);
            assert(r == seq![path[0]] + rr);
        }
        if r.contains('\\') {
            let i = choose|i: int| 0 <= i < r.len() && r[i] == '\\';
            if i > 0 {
                assert(rr[i - 1] == r[i]);
            }
        }
    }
}

} // verus!
