//! Text helpers for the notification email.
//!
//! Building and sending the mail itself is the notifier's business,
//! outside this library; here lives only the subject-line cropping.

use vstd::prelude::*;

verus! {

/// Crop a product name for the subject line: a name longer than
/// `length` characters is cut there and marked with a `...` tail.
pub fn crop_string(s: &str, length: usize) -> (r: String)
    ensures
        s@.len() <= length ==> r@ == s@,
        s@.len() > length ==> r@ == s@.subrange(0, length as int) + "..."@,
{
    let n = s.unicode_len();
    if n <= length {
        s.to_owned()
    } else {
        let t = s.substring_char(0, length);
        let mut r = String::from_str(t);
        r.append("...");
        r
    }
}

} // verus!
