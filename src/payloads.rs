use vstd::prelude::*;

use vstd::utf8::encode_utf8;

use crate::callsign::{encode_callsign, encoded};

verus! {

/// The opcode `LSTN`: connect as a listen-only client.
pub open spec fn lstn_opcode() -> Seq<u8> {
    seq![0x4Cu8, 0x53, 0x54, 0x4E]
}

/// The opcode `PONG`: keepalive reply.
pub open spec fn pong_opcode() -> Seq<u8> {
    seq![0x50u8, 0x4F, 0x4E, 0x47]
}

/// `LSTN`, the encoded callsign, then the bytes of the module name.
pub open spec fn conn_payload(callsign: Seq<char>, module: Seq<char>) -> Seq<u8> {
    lstn_opcode() + encoded(callsign) + encode_utf8(module)
}

/// `PONG`, then the encoded callsign.
pub open spec fn pong_payload(callsign: Seq<char>) -> Seq<u8> {
    pong_opcode() + encoded(callsign)
}

fn append_bytes(out: &mut Vec<u8>, b: &[u8])
    ensures
        final(out)@ == old(out)@ + b@,
{
    let mut i: usize = 0;
    while i < b.len()
        invariant
            i <= b@.len(),
            out@ == old(out)@ + b@.take(i as int),
        decreases b@.len() - i,
    {
        out.push(b[i]);
        i = i + 1;
        assert(out@ =~= old(out)@ + b@.take(i as int));
    }
    assert(b@.take(b@.len() as int) =~= b@);
}

/// Builds the `LSTN` datagram that links to `module` as a listener.
pub fn create_conn_payload(callsign: String, module: String) -> (r: Vec<u8>)
    ensures
        r@ == conn_payload(callsign@, module@),
{
    let mut payload: Vec<u8> = Vec::new();
    payload.push(0x4C);
    payload.push(0x53);
    payload.push(0x54);
    payload.push(0x4E);
    assert(payload@ =~= lstn_opcode());
    let enc = encode_callsign(callsign);
    append_bytes(&mut payload, enc.as_slice());
    append_bytes(&mut payload, module.as_str().as_bytes());
    payload
}

/// Builds the `PONG` datagram that answers a keepalive.
pub fn create_pong_payload(callsign: String) -> (r: Vec<u8>)
    ensures
        r@ == pong_payload(callsign@),
{
    let mut payload: Vec<u8> = Vec::new();
    payload.push(0x50);
    payload.push(0x4F);
    payload.push(0x4E);
    payload.push(0x47);
    assert(payload@ =~= pong_opcode());
    let enc = encode_callsign(callsign);
    append_bytes(&mut payload, enc.as_slice());
    payload
}

} // verus!
