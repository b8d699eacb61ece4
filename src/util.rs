use vstd::prelude::*;
use vstd::string::{StringExecFns, StringSliceAdditionalSpecFns};
use vstd::utf8::{encode_utf8, is_char_boundary};

verus! {

/// `s` cut to its first `max_len` bytes, followed by `...`, when it is
/// longer than that; `s` itself otherwise.
pub fn truncate_string(s: &str, max_len: usize) -> (r: String)
    requires
        s.spec_bytes().len() > max_len ==> is_char_boundary(s.spec_bytes(), max_len as int),
    ensures
        s.spec_bytes().len() <= max_len ==> r@ == s@,
        s.spec_bytes().len() > max_len ==> exists|p: Seq<char>|
            #[trigger] encode_utf8(p) == s.spec_bytes().subrange(0, max_len as int) && r@ == p + seq!['.', '.', '.'],
{
    if s.as_bytes().len() > max_len {
        let (head, _) = s.split_at(max_len);
        let mut r = head.to_owned();
        proof {
            reveal_strlit("...");
        }
        r.append("...");
        assert(r@ == head@ + seq!['.', '.', '.']);
        assert(encode_utf8(head@) == s.spec_bytes().subrange(0, max_len as int));
        r
    } else {
        s.to_owned()
    }
}

} // verus!
