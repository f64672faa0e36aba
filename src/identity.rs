use vstd::prelude::*;

use crate::text::{chars_of, decimal, push_char, push_decimal};

verus! {

/// Lowest number of a generated listener callsign.
pub const SWL_NUMBER_LOW: u32 = 10000;

/// One past the highest number of a generated listener callsign.
pub const SWL_NUMBER_HIGH: u32 = 99999;

/// Relies on rand::random_range: a value drawn from `low..high`, which is not empty.
#[verifier::external_body]
fn random_in(low: u32, high: u32) -> (r: u32)
    requires
        low < high,
    ensures
        low <= r < high,
{
    rand::random_range(low..high)
}

/// Relies on random_string::generate: `length` characters, each drawn from the nonempty `charset`.
#[verifier::external_body]
fn random_chars(length: usize, charset: &str) -> (r: String)
    requires
        charset@.len() > 0,
    ensures
        r@.len() == length,
        forall|i: int| 0 <= i < length ==> charset@.contains(#[trigger] r@[i]),
{
    random_string::generate(length, charset)
}

/// `SWL`, the prefix of a self-assigned listener callsign.
pub open spec fn swl_prefix() -> Seq<char> {
    seq!['S', 'W', 'L']
}

/// The setting that asks for a self-assigned callsign.
pub open spec fn none_setting() -> Seq<char> {
    seq!['N', 'O', 'N', 'E']
}

/// A listener callsign `SWL` followed by six random capital letters.
pub fn generate_lstn_call() -> (r: String)
    ensures
        r@.len() == 9,
        r@.take(3) == swl_prefix(),
        forall|i: int| 3 <= i < 9 ==> 'A' <= #[trigger] r@[i] <= 'Z',
{
    let charset = "ABCDEFGHIJKLMNOPQRSTUVWXYZ";
    proof {
        reveal_strlit("ABCDEFGHIJKLMNOPQRSTUVWXYZ");
    }
    let letters = chars_of(random_chars(6, charset).as_str());
    let mut r = String::new();
    push_char(&mut r, 'S');
    push_char(&mut r, 'W');
    push_char(&mut r, 'L');
    let mut i: usize = 0;
    while i < 6
        invariant
            i <= 6 == letters@.len(),
            forall|k: int| 0 <= k < 6 ==> 'A' <= #[trigger] letters@[k] <= 'Z',
            r@ == swl_prefix() + letters@.take(i as int),
        decreases 6 - i,
    {
        push_char(&mut r, letters[i]);
        i = i + 1;
        assert(r@ =~= swl_prefix() + letters@.take(i as int));
    }
    assert(r@.take(3) =~= swl_prefix());
    r
}

/// The listener callsign `SWL` followed by the decimal digits of `n`.
pub fn swl_callsign(n: u32) -> (r: String)
    ensures
        r@ == swl_prefix() + decimal(n as nat),
{
    let mut r = String::new();
    push_char(&mut r, 'S');
    push_char(&mut r, 'W');
    push_char(&mut r, 'L');
    assert(r@ =~= swl_prefix());
    push_decimal(&mut r, n as u64);
    r
}

fn is_none_setting(s: &String) -> (r: bool)
    ensures
        r == (s@ == none_setting()),
{
    let c = chars_of(s.as_str());
    let r = c.len() == 4 && c[0] == 'N' && c[1] == 'O' && c[2] == 'N' && c[3] == 'E';
    assert(r ==> c@ =~= none_setting());
    r
}

/// The callsign the proxy uses: the configured one, or for `NONE` a random `SWL` number.
pub fn proxy_callsign(configured: &String) -> (r: String)
    ensures
        configured@ != none_setting() ==> r@ == configured@,
        configured@ == none_setting() ==> exists|n: int|
            SWL_NUMBER_LOW <= n < SWL_NUMBER_HIGH && r@ == swl_prefix() + #[trigger] decimal(n as nat),
{
    if is_none_setting(configured) {
        let n = random_in(SWL_NUMBER_LOW, SWL_NUMBER_HIGH);
        let r = swl_callsign(n);
        let ghost k: int = n as int;
        assert(SWL_NUMBER_LOW <= k < SWL_NUMBER_HIGH && r@ == swl_prefix() + decimal(k as nat));
        r
    } else {
        configured.clone()
    }
}

} // verus!
