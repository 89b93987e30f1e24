use vstd::prelude::*;

use crate::messages::ScreenReply;

verus! {

/// The byte that ends a frame's tag.
pub const NEWLINE: u8 = 10;

/// The tags that select a frame's decoder: `<tag>\n<body>`.
#[derive(Debug, Clone, Copy, PartialEq, Eq, Structural)]
pub enum Tag {
    Prepare,
    Commit,
    Abort,
    Ready,
    Finished,
    Keepalive,
    Access,
    Order,
    Ping,
    Election,
    Screen,
}

/// The text of a tag.
pub open spec fn tag_text(t: Tag) -> Seq<u8> {
    match t {
        Tag::Prepare => seq![112u8, 114, 101, 112, 97, 114, 101],
        Tag::Commit => seq![99u8, 111, 109, 109, 105, 116],
        Tag::Abort => seq![97u8, 98, 111, 114, 116],
        Tag::Ready => seq![114u8, 101, 97, 100, 121],
        Tag::Finished => seq![102u8, 105, 110, 105, 115, 104, 101, 100],
        Tag::Keepalive => seq![107u8, 101, 101, 112, 97, 108, 105, 118, 101],
        Tag::Access => seq![97u8, 99, 99, 101, 115, 115],
        Tag::Order => seq![111u8, 114, 100, 101, 114],
        Tag::Ping => seq![112u8, 105, 110, 103],
        Tag::Election => seq![101u8, 108, 101, 99, 116, 105, 111, 110],
        Tag::Screen => seq![115u8, 99, 114, 101, 101, 110],
    }
}

/// Every tag, in a fixed order.
pub open spec fn all_tags() -> Seq<Tag> {
    seq![
        Tag::Prepare,
        Tag::Commit,
        Tag::Abort,
        Tag::Ready,
        Tag::Finished,
        Tag::Keepalive,
        Tag::Access,
        Tag::Order,
        Tag::Ping,
        Tag::Election,
        Tag::Screen,
    ]
}

/// The tag whose text is `s`, if any.
pub open spec fn tag_of_text(s: Seq<u8>) -> Option<Tag> {
    if exists|t: Tag| tag_text(t) == s {
        Some(choose|t: Tag| tag_text(t) == s)
    } else {
        None
    }
}

/// A frame: the tag's text, a newline, the body.
pub open spec fn frame_spec(tag: Tag, body: Seq<u8>) -> Seq<u8> {
    tag_text(tag) + seq![NEWLINE] + body
}

/// Position of the first newline of `s`, or its length when it has none.
pub open spec fn newline_pos(s: Seq<u8>) -> nat
    decreases s.len(),
{
    if s.len() == 0 {
        0
    } else if s[0] == NEWLINE {
        0
    } else {
        1 + newline_pos(s.drop_first())
    }
}

/// A message cut at its first newline: the text before it and the text after it.
pub open spec fn split_spec(s: Seq<u8>) -> Option<(Seq<u8>, Seq<u8>)> {
    let i = newline_pos(s) as int;
    if i < s.len() {
        Some((s.take(i), s.skip(i + 1)))
    } else {
        None
    }
}

/// Decimal text of `n`, without leading zeros.
pub open spec fn decimal(n: nat) -> Seq<u8>
    decreases n,
{
    if n < 10 {
        seq![(48 + n) as u8]
    } else {
        decimal(n / 10).push((48 + n % 10) as u8)
    }
}

/// Whether every byte of `s` is an ASCII digit.
pub open spec fn all_digits(s: Seq<u8>) -> bool {
    forall|i: int| 0 <= i < s.len() ==> 48 <= #[trigger] s[i] <= 57
}

/// Value of a text of decimal digits.
pub open spec fn digits_value(s: Seq<u8>) -> nat
    decreases s.len(),
{
    if s.len() == 0 {
        0
    } else {
        digits_value(s.drop_last()) * 10 + (s.last() - 48) as nat
    }
}

/// The number that a body of decimal digits holds, if it is one that fits a `usize`.
pub open spec fn parse_decimal_spec(s: Seq<u8>) -> Option<usize> {
    if s.len() > 0 && all_digits(s) && digits_value(s) <= usize::MAX {
        Some(digits_value(s) as usize)
    } else {
        None
    }
}

/// The tag of a participant's reply verb.
pub open spec fn reply_tag(r: ScreenReply) -> Tag {
    match r {
        ScreenReply::Ready => Tag::Ready,
        ScreenReply::Abort => Tag::Abort,
        ScreenReply::Finished => Tag::Finished,
        ScreenReply::Keepalive => Tag::Keepalive,
    }
}

/// The reply verb of a tag, if it is one.
pub open spec fn tag_reply(t: Tag) -> Option<ScreenReply> {
    match t {
        Tag::Ready => Some(ScreenReply::Ready),
        Tag::Abort => Some(ScreenReply::Abort),
        Tag::Finished => Some(ScreenReply::Finished),
        Tag::Keepalive => Some(ScreenReply::Keepalive),
        _ => None,
    }
}

/// A reply line `<verb>\n<order-id>`.
pub open spec fn reply_spec(r: ScreenReply, order_id: usize) -> Seq<u8> {
    frame_spec(reply_tag(r), decimal(order_id as nat))
}

/// What a reply line says, if it is one.
pub open spec fn parse_reply_spec(s: Seq<u8>) -> Option<(ScreenReply, usize)> {
    match split_spec(s) {
        Some((t, b)) => match tag_of_text(t) {
            Some(tag) => match (tag_reply(tag), parse_decimal_spec(b)) {
                (Some(r), Some(n)) => Some((r, n)),
                _ => None,
            },
            None => None,
        },
        None => None,
    }
}

proof fn lemma_tag_text_injective(a: Tag, b: Tag)
    ensures
        tag_text(a) == tag_text(b) ==> a == b,
{
    if tag_text(a) == tag_text(b) {
        let (x, y) = (tag_text(a), tag_text(b));
        assert(x.len() == y.len());
        assert(x[0] == y[0]);
        assert(x[1] == y[1]);
        assert(x[2] == y[2]);
    }
}

proof fn lemma_tag_text_no_newline(t: Tag)
    ensures
        !tag_text(t).contains(NEWLINE),
        tag_of_text(tag_text(t)) == Some(t),
{
    let s = tag_text(t);
    assert forall|i: int| 0 <= i < s.len() implies s[i] != NEWLINE by {}
    assert(exists|u: Tag| tag_text(u) == s);
    let u = choose|u: Tag| tag_text(u) == s;
    lemma_tag_text_injective(u, t);
}

proof fn lemma_newline_pos(s: Seq<u8>, i: int)
    requires
        0 <= i <= s.len(),
        forall|j: int| 0 <= j < i ==> s[j] != NEWLINE,
        i == s.len() || s[i] == NEWLINE,
    ensures
        newline_pos(s) == i,
    decreases i,
{
    if i > 0 {
        let t = s.drop_first();
        assert forall|j: int| 0 <= j < i - 1 implies t[j] != NEWLINE by {
            assert(t[j] == s[j + 1]);
        }
        if i < s.len() {
            assert(t[i - 1] == s[i]);
        }
        lemma_newline_pos(t, i - 1);
    }
}

proof fn lemma_decimal_digits(n: nat)
    ensures
        all_digits(decimal(n)),
        decimal(n).len() > 0,
        digits_value(decimal(n)) == n,
    decreases n,
{
    if n >= 10 {
        lemma_decimal_digits(n / 10);
        let d = decimal(n);
        assert(d.drop_last() =~= decimal(n / 10));
        assert(d.last() == (48 + n % 10) as u8);
        assert(digits_value(d) == digits_value(decimal(n / 10)) * 10 + (n % 10));
        assert(n == (n / 10) * 10 + n % 10) by (nonlinear_arith);
        assert forall|i: int| 0 <= i < d.len() implies 48 <= #[trigger] d[i] <= 57 by {
            if i < d.len() - 1 {
                assert(d[i] == decimal(n / 10)[i]);
            }
        }
    } else {
        let d = decimal(n);
        assert(d.drop_last() =~= Seq::<u8>::empty());
        assert(digits_value(d) == digits_value(d.drop_last()) * 10 + (d.last() - 48) as nat);
    }
}

/// Cutting a frame at its first newline gives back its tag's text and its body,
/// for every tag and every body.
pub proof fn lemma_frame_round_trip(tag: Tag, body: Seq<u8>)
    ensures
        split_spec(frame_spec(tag, body)) == Some((tag_text(tag), body)),
        tag_of_text(tag_text(tag)) == Some(tag),
{
    let t = tag_text(tag);
    let s = frame_spec(tag, body);
    lemma_tag_text_no_newline(tag);
    assert forall|j: int| 0 <= j < t.len() implies s[j] != NEWLINE by {
        assert(s[j] == t[j]);
        assert(!t.contains(NEWLINE));
    }
    lemma_newline_pos(s, t.len() as int);
    assert(s.take(t.len() as int) =~= t);
    assert(s.skip(t.len() as int + 1) =~= body);
}

/// A reply line reads back as the verb and the order id it was written from.
pub proof fn lemma_reply_round_trip(r: ScreenReply, order_id: usize)
    ensures
        parse_reply_spec(reply_spec(r, order_id)) == Some((r, order_id)),
{
    lemma_frame_round_trip(reply_tag(r), decimal(order_id as nat));
    lemma_decimal_digits(order_id as nat);
}

proof fn lemma_digits_prefix(s: Seq<u8>, i: int)
    requires
        0 <= i <= s.len(),
    ensures
        digits_value(s.take(i)) <= digits_value(s),
    decreases s.len(),
{
    if i < s.len() {
        assert(s.drop_last().take(i) =~= s.take(i));
        lemma_digits_prefix(s.drop_last(), i);
    } else {
        assert(s.take(i) =~= s);
    }
}

/// Every tag.
pub fn tags() -> (r: Vec<Tag>)
    ensures
        r@ == all_tags(),
        forall|t: Tag| all_tags().contains(t),
{
    let r = vec![
        Tag::Prepare,
        Tag::Commit,
        Tag::Abort,
        Tag::Ready,
        Tag::Finished,
        Tag::Keepalive,
        Tag::Access,
        Tag::Order,
        Tag::Ping,
        Tag::Election,
        Tag::Screen,
    ];
    assert(r@ =~= all_tags());
    assert forall|t: Tag| all_tags().contains(t) by {
        let k: int = match t {
            Tag::Prepare => 0,
            Tag::Commit => 1,
            Tag::Abort => 2,
            Tag::Ready => 3,
            Tag::Finished => 4,
            Tag::Keepalive => 5,
            Tag::Access => 6,
            Tag::Order => 7,
            Tag::Ping => 8,
            Tag::Election => 9,
            Tag::Screen => 10,
        };
        assert(all_tags()[k] == t);
    }
    r
}

/// The text of `t`.
pub fn tag_bytes(t: Tag) -> (r: Vec<u8>)
    ensures
        r@ == tag_text(t),
{
    let r = match t {
        Tag::Prepare => vec![112u8, 114, 101, 112, 97, 114, 101],
        Tag::Commit => vec![99u8, 111, 109, 109, 105, 116],
        Tag::Abort => vec![97u8, 98, 111, 114, 116],
        Tag::Ready => vec![114u8, 101, 97, 100, 121],
        Tag::Finished => vec![102u8, 105, 110, 105, 115, 104, 101, 100],
        Tag::Keepalive => vec![107u8, 101, 101, 112, 97, 108, 105, 118, 101],
        Tag::Access => vec![97u8, 99, 99, 101, 115, 115],
        Tag::Order => vec![111u8, 114, 100, 101, 114],
        Tag::Ping => vec![112u8, 105, 110, 103],
        Tag::Election => vec![101u8, 108, 101, 99, 116, 105, 111, 110],
        Tag::Screen => vec![115u8, 99, 114, 101, 101, 110],
    };
    assert(r@ =~= tag_text(t));
    r
}

/// Whether two byte strings are equal.
pub fn bytes_equal(a: &[u8], b: &[u8]) -> (r: bool)
    ensures
        r == (a@ == b@),
{
    if a.len() != b.len() {
        return false;
    }
    let mut i: usize = 0;
    while i < a.len()
        invariant
            a@.len() == b@.len(),
            0 <= i <= a@.len(),
            forall|k: int| 0 <= k < i ==> a@[k] == b@[k],
        decreases a.len() - i,
    {
        if a[i] != b[i] {
            return false;
        }
        i = i + 1;
    }
    assert(a@ =~= b@);
    true
}

/// The tag whose text is `text`, if any.
pub fn parse_tag(text: &[u8]) -> (r: Option<Tag>)
    ensures
        r == tag_of_text(text@),
{
    let all = tags();
    let mut i: usize = 0;
    while i < all.len()
        invariant
            all@ == all_tags(),
            0 <= i <= all@.len(),
            forall|k: int| 0 <= k < i ==> tag_text(#[trigger] all@[k]) != text@,
        decreases all.len() - i,
    {
        let t = all[i];
        let candidate = tag_bytes(t);
        if bytes_equal(candidate.as_slice(), text) {
            proof {
                lemma_tag_text_no_newline(t);
            }
            return Some(t);
        }
        i = i + 1;
    }
    proof {
        assert forall|t: Tag| tag_text(t) != text@ by {
            assert(all_tags().contains(t));
            let k = choose|k: int| 0 <= k < all_tags().len() && all_tags()[k] == t;
            assert(tag_text(all@[k]) != text@);
        }
    }
    None
}

/// The frame `<tag>\n<body>`.
pub fn frame(tag: Tag, body: &[u8]) -> (r: Vec<u8>)
    ensures
        r@ == frame_spec(tag, body@),
{
    let mut r = tag_bytes(tag);
    r.push(NEWLINE);
    let mut i: usize = 0;
    while i < body.len()
        invariant
            0 <= i <= body@.len(),
            r@ == tag_text(tag) + seq![NEWLINE] + body@.take(i as int),
        decreases body.len() - i,
    {
        r.push(body[i]);
        i = i + 1;
        assert(r@ =~= tag_text(tag) + seq![NEWLINE] + body@.take(i as int));
    }
    assert(body@.take(body@.len() as int) =~= body@);
    r
}

/// Cuts `msg` at its first newline into the tag's text and the body; `None`
/// when it holds no newline.
pub fn split_frame(msg: &[u8]) -> (r: Option<(Vec<u8>, Vec<u8>)>)
    ensures
        match r {
            Some((t, b)) => split_spec(msg@) == Some((t@, b@)),
            None => split_spec(msg@) is None,
        },
{
    let mut i: usize = 0;
    while i < msg.len() && msg[i] != NEWLINE
        invariant
            0 <= i <= msg@.len(),
            forall|k: int| 0 <= k < i ==> msg@[k] != NEWLINE,
        decreases msg.len() - i,
    {
        i = i + 1;
    }
    proof {
        lemma_newline_pos(msg@, i as int);
    }
    if i == msg.len() {
        return None;
    }
    let mut tag: Vec<u8> = Vec::new();
    let mut k: usize = 0;
    while k < i
        invariant
            0 <= k <= i < msg@.len(),
            tag@ == msg@.take(k as int),
        decreases i - k,
    {
        tag.push(msg[k]);
        k = k + 1;
        assert(tag@ =~= msg@.take(k as int));
    }
    let mut body: Vec<u8> = Vec::new();
    let mut j: usize = i + 1;
    while j < msg.len()
        invariant
            i + 1 <= j <= msg@.len(),
            body@ == msg@.subrange(i + 1, j as int),
        decreases msg.len() - j,
    {
        body.push(msg[j]);
        j = j + 1;
        assert(body@ =~= msg@.subrange(i + 1, j as int));
    }
    assert(body@ =~= msg@.skip(i + 1));
    Some((tag, body))
}

/// Decimal text of `n`.
pub fn to_decimal(n: usize) -> (r: Vec<u8>)
    ensures
        r@ == decimal(n as nat),
    decreases n,
{
    if n < 10 {
        vec![48u8 + n as u8]
    } else {
        let mut r = to_decimal(n / 10);
        r.push(48u8 + (n % 10) as u8);
        r
    }
}

/// The number that `text` holds in decimal, if it is made of digits only and
/// fits a `usize`.
pub fn parse_decimal(text: &[u8]) -> (r: Option<usize>)
    ensures
        r == parse_decimal_spec(text@),
{
    if text.len() == 0 {
        return None;
    }
    let mut i: usize = 0;
    while i < text.len()
        invariant
            0 <= i <= text@.len(),
            forall|k: int| 0 <= k < i ==> 48 <= #[trigger] text@[k] <= 57,
        decreases text.len() - i,
    {
        if text[i] < 48 || text[i] > 57 {
            return None;
        }
        i = i + 1;
    }
    let mut value: u128 = 0;
    let mut j: usize = 0;
    assert(text@.take(0) =~= Seq::<u8>::empty());
    while j < text.len()
        invariant
            all_digits(text@),
            0 <= j <= text@.len(),
            value as nat == digits_value(text@.take(j as int)),
            value <= usize::MAX,
        decreases text.len() - j,
    {
        assert(text@.take(j as int + 1).drop_last() =~= text@.take(j as int));
        value = value * 10 + (text[j] - 48) as u128;
        if value > usize::MAX as u128 {
            proof {
                lemma_digits_prefix(text@, j as int + 1);
            }
            return None;
        }
        j = j + 1;
    }
    assert(text@.take(text@.len() as int) =~= text@);
    Some(value as usize)
}

/// The tag of a reply verb.
pub fn reply_tag_of(reply: ScreenReply) -> (r: Tag)
    ensures
        r == reply_tag(reply),
{
    match reply {
        ScreenReply::Ready => Tag::Ready,
        ScreenReply::Abort => Tag::Abort,
        ScreenReply::Finished => Tag::Finished,
        ScreenReply::Keepalive => Tag::Keepalive,
    }
}

/// The reply line `<verb>\n<order_id>` that a participant sends to a screen.
pub fn encode_reply(reply: ScreenReply, order_id: usize) -> (r: Vec<u8>)
    ensures
        r@ == reply_spec(reply, order_id),
{
    let digits = to_decimal(order_id);
    frame(reply_tag_of(reply), digits.as_slice())
}

/// Reads a reply line `<verb>\n<order-id>`; `None` when `msg` is not one.
pub fn decode_reply(msg: &[u8]) -> (r: Option<(ScreenReply, usize)>)
    ensures
        r == parse_reply_spec(msg@),
{
    let (tag_text_bytes, body) = match split_frame(msg) {
        Some(parts) => parts,
        None => {
            return None;
        },
    };
    let tag = match parse_tag(tag_text_bytes.as_slice()) {
        Some(t) => t,
        None => {
            return None;
        },
    };
    let reply = match tag {
        Tag::Ready => ScreenReply::Ready,
        Tag::Abort => ScreenReply::Abort,
        Tag::Finished => ScreenReply::Finished,
        Tag::Keepalive => ScreenReply::Keepalive,
        _ => {
            return None;
        },
    };
    match parse_decimal(body.as_slice()) {
        Some(n) => Some((reply, n)),
        None => None,
    }
}

} // verus!
