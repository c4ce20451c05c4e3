//! The data behind the client's chat view.

use vstd::prelude::*;

use crate::client::auth::Platform;

pub mod components;

verus! {

/// A conversation as the conversation list shows it.
#[derive(Debug)]
pub struct Conversation {
    pub id: String,
    /// The path of the picture it shows.
    pub image: String,
    pub name: String,
    pub platform: String,
}

/// The number a platform is stored under (its position among the variants).
pub open spec fn platform_tag(p: Platform) -> u8 {
    match p {
        Platform::Discord => 0,
        Platform::Unkown => 1,
    }
}

/// The key a conversation's sign-in is found under: the platform's number,
/// then the conversation's id in UTF-8.
pub fn conversation_key(platform: Platform, channel_id: &str) -> (r: Vec<u8>)
    ensures
        r@ == seq![platform_tag(platform)] + vstd::utf8::encode_utf8(channel_id@),
{
    let tag: u8 = match platform {
        Platform::Discord => 0,
        Platform::Unkown => 1,
    };
    let mut r: Vec<u8> = Vec::new();
    r.push(tag);
    let bytes = channel_id.as_bytes();
    for i in 0..bytes.len()
        invariant
            bytes@ == vstd::utf8::encode_utf8(channel_id@),
            r@ == seq![tag] + bytes@.take(i as int),
    {
        r.push(bytes[i]);
        assert(r@ =~= seq![tag] + bytes@.take(i + 1));
    }
    assert(bytes@.take(bytes@.len() as int) =~= bytes@);
    r
}

} // verus!

verus! {

/// Conversation keys tell conversations apart: two keys are equal exactly
/// when they are for the same platform and the same conversation id.
pub proof fn lemma_conversation_key_identifies(p1: Platform, id1: Seq<char>, p2: Platform, id2: Seq<char>)
    ensures
        (seq![platform_tag(p1)] + vstd::utf8::encode_utf8(id1) == seq![platform_tag(p2)]
            + vstd::utf8::encode_utf8(id2)) <==> (p1 == p2 && id1 == id2),
{
    let k1 = seq![platform_tag(p1)] + vstd::utf8::encode_utf8(id1);
    let k2 = seq![platform_tag(p2)] + vstd::utf8::encode_utf8(id2);
    if k1 == k2 {
        assert(k1[0] == platform_tag(p1));
        assert(k2[0] == platform_tag(p2));
        assert(k1.skip(1) =~= vstd::utf8::encode_utf8(id1));
        assert(k2.skip(1) =~= vstd::utf8::encode_utf8(id2));
        vstd::utf8::encode_utf8_decode_utf8(id1);
        vstd::utf8::encode_utf8_decode_utf8(id2);
    }
}

} // verus!
