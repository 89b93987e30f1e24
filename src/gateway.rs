use vstd::prelude::*;

use rand::Rng;

use crate::framing::{
    encode_reply, frame_spec, lemma_frame_round_trip, parse_tag, reply_spec, split_frame, split_spec,
    tag_of_text, tag_text, Tag,
};
use crate::messages::ScreenReply;
use crate::order::Order;

verus! {

/// Chance, as a ratio, that the gateway captures a payment.
pub const CAPTURE_NUMERATOR: u32 = 9;

/// See `CAPTURE_NUMERATOR`.
pub const CAPTURE_DENOMINATOR: u32 = 10;

/// Relies on `rand::Rng::gen_ratio` on the thread's generator: `true` with
/// probability `numerator / denominator`; always `false` for a numerator of 0 and
/// always `true` when both are equal. It panics when the denominator is 0 or
/// below the numerator, which `requires` leaves out.
#[verifier::external_body]
fn draw_ratio(numerator: u32, denominator: u32) -> (r: bool)
    requires
        0 < denominator,
        numerator <= denominator,
    ensures
        numerator == 0 ==> !r,
        numerator == denominator ==> r,
{
    rand::thread_rng().gen_ratio(numerator, denominator)
}

/// `prepare`: the screen asks whether the payment can be captured.
#[derive(Debug)]
pub struct Prepare {
    pub order: Order,
}

/// `commit`: the screen confirms the transaction.
#[derive(Debug)]
pub struct Commit {
    pub order: Order,
}

/// `abort`: the screen cancels the transaction.
#[derive(Debug)]
pub struct Abort {
    pub order: Order,
}

/// A message that the payment gateway receives.
#[derive(Debug)]
pub enum GatewayMessage {
    Prepare(Prepare),
    Commit(Commit),
    Abort(Abort),
}

/// Why a frame for the payment gateway was refused before its body was read.
#[derive(Debug, Clone, Copy, PartialEq, Eq, Structural)]
pub enum FrameError {
    /// The message is empty or blank.
    MissingTypeAndPayload,
    /// The message has no newline.
    MissingTypeOrPayload,
    /// The text before the newline is blank.
    EmptyType,
    /// The text after the newline is blank.
    EmptyPayload,
}

/// The kinds of message the payment gateway understands.
#[derive(Debug, Clone, Copy, PartialEq, Eq, Structural)]
pub enum GatewayKind {
    Prepare,
    Commit,
    Abort,
}

/// Whether `b` is ASCII white space.
pub open spec fn is_space(b: u8) -> bool {
    b == 32 || (9 <= b <= 13)
}

/// Whether `s` holds nothing but ASCII white space.
pub open spec fn is_blank(s: Seq<u8>) -> bool {
    forall|i: int| 0 <= i < s.len() ==> is_space(#[trigger] s[i])
}

/// How the payment gateway cuts a frame: its type's text and its payload, or
/// the reason it is refused.
pub open spec fn check_frame_spec(m: Seq<u8>) -> Result<(Seq<u8>, Seq<u8>), FrameError> {
    if is_blank(m) {
        Err(FrameError::MissingTypeAndPayload)
    } else {
        match split_spec(m) {
            None => Err(FrameError::MissingTypeOrPayload),
            Some((t, b)) => if is_blank(t) {
                Err(FrameError::EmptyType)
            } else if is_blank(b) {
                Err(FrameError::EmptyPayload)
            } else {
                Ok((t, b))
            },
        }
    }
}

/// The kind of gateway message whose type's text is `t`, if any.
pub open spec fn gateway_kind_spec(t: Seq<u8>) -> Option<GatewayKind> {
    match tag_of_text(t) {
        Some(Tag::Prepare) => Some(GatewayKind::Prepare),
        Some(Tag::Commit) => Some(GatewayKind::Commit),
        Some(Tag::Abort) => Some(GatewayKind::Abort),
        _ => None,
    }
}

/// The log line `<type> <json-order>\n` of a message whose type's text is `t`.
pub open spec fn log_line_spec(t: Seq<u8>, order_json: Seq<u8>) -> Seq<u8> {
    t + seq![32u8] + order_json + seq![10u8]
}

impl FrameError {
    /// The text of the error.
    pub fn message(&self) -> (r: String)
        ensures
            *self == FrameError::MissingTypeAndPayload ==> r@
                == "Incomplete message: missing message type and payload"@,
            *self == FrameError::MissingTypeOrPayload ==> r@
                == "Incomplete message: missing type or payload"@,
            *self == FrameError::EmptyType ==> r@ == "Incomplete message: empty type"@,
            *self == FrameError::EmptyPayload ==> r@ == "Incomplete message: empty payload"@,
    {
        match self {
            FrameError::MissingTypeAndPayload => String::from_str(
                "Incomplete message: missing message type and payload",
            ),
            FrameError::MissingTypeOrPayload => String::from_str(
                "Incomplete message: missing type or payload",
            ),
            FrameError::EmptyType => String::from_str("Incomplete message: empty type"),
            FrameError::EmptyPayload => String::from_str("Incomplete message: empty payload"),
        }
    }
}

/// Whether `s` holds nothing but ASCII white space.
pub fn blank(s: &[u8]) -> (r: bool)
    ensures
        r == is_blank(s@),
{
    let mut i: usize = 0;
    while i < s.len()
        invariant
            0 <= i <= s@.len(),
            forall|k: int| 0 <= k < i ==> is_space(#[trigger] s@[k]),
        decreases s.len() - i,
    {
        let b = s[i];
        if !(b == 32 || (9 <= b && b <= 13)) {
            return false;
        }
        i = i + 1;
    }
    true
}

/// Cuts a frame for the payment gateway into its type's text and its payload,
/// refusing a blank message, one with no newline, and a blank type or payload.
pub fn check_frame(message: &[u8]) -> (r: Result<(Vec<u8>, Vec<u8>), FrameError>)
    ensures
        match r {
            Ok((t, b)) => check_frame_spec(message@) == Ok::<(Seq<u8>, Seq<u8>), FrameError>((t@, b@)),
            Err(e) => check_frame_spec(message@) == Err::<(Seq<u8>, Seq<u8>), FrameError>(e),
        },
{
    if blank(message) {
        return Err(FrameError::MissingTypeAndPayload);
    }
    let (kind, payload) = match split_frame(message) {
        Some(parts) => parts,
        None => {
            return Err(FrameError::MissingTypeOrPayload);
        },
    };
    if blank(kind.as_slice()) {
        return Err(FrameError::EmptyType);
    }
    if blank(payload.as_slice()) {
        return Err(FrameError::EmptyPayload);
    }
    Ok((kind, payload))
}

/// The kind of gateway message whose type's text is `kind`, if any.
pub fn gateway_kind(kind: &[u8]) -> (r: Option<GatewayKind>)
    ensures
        r == gateway_kind_spec(kind@),
{
    match parse_tag(kind) {
        Some(Tag::Prepare) => Some(GatewayKind::Prepare),
        Some(Tag::Commit) => Some(GatewayKind::Commit),
        Some(Tag::Abort) => Some(GatewayKind::Abort),
        _ => None,
    }
}

/// The log line `<type> <json-order>\n` of a message whose type's text is `kind`.
pub fn log_line(kind: &[u8], order_json: &[u8]) -> (r: Vec<u8>)
    ensures
        r@ == log_line_spec(kind@, order_json@),
{
    let mut r: Vec<u8> = Vec::new();
    let mut i: usize = 0;
    while i < kind.len()
        invariant
            0 <= i <= kind@.len(),
            r@ == kind@.take(i as int),
        decreases kind.len() - i,
    {
        r.push(kind[i]);
        i = i + 1;
        assert(r@ =~= kind@.take(i as int));
    }
    r.push(32u8);
    let mut j: usize = 0;
    while j < order_json.len()
        invariant
            0 <= j <= order_json@.len(),
            r@ == kind@ + seq![32u8] + order_json@.take(j as int),
        decreases order_json.len() - j,
    {
        r.push(order_json[j]);
        j = j + 1;
        assert(r@ =~= kind@ + seq![32u8] + order_json@.take(j as int));
    }
    r.push(10u8);
    assert(kind@.take(kind@.len() as int) =~= kind@);
    assert(order_json@.take(order_json@.len() as int) =~= order_json@);
    assert(r@ =~= log_line_spec(kind@, order_json@));
    r
}

impl GatewayMessage {
    /// A message of kind `kind` for `order`.
    pub fn from_kind(kind: GatewayKind, order: Order) -> (r: GatewayMessage)
        ensures
            r.kind() == kind,
            r.order() == order,
    {
        match kind {
            GatewayKind::Prepare => GatewayMessage::Prepare(Prepare::new(order)),
            GatewayKind::Commit => GatewayMessage::Commit(Commit::new(order)),
            GatewayKind::Abort => GatewayMessage::Abort(Abort::new(order)),
        }
    }

    /// The kind of the message.
    pub open spec fn kind(&self) -> GatewayKind {
        match self {
            GatewayMessage::Prepare(_) => GatewayKind::Prepare,
            GatewayMessage::Commit(_) => GatewayKind::Commit,
            GatewayMessage::Abort(_) => GatewayKind::Abort,
        }
    }

    /// The order of the message.
    pub open spec fn order(&self) -> Order {
        match self {
            GatewayMessage::Prepare(m) => m.order,
            GatewayMessage::Commit(m) => m.order,
            GatewayMessage::Abort(m) => m.order,
        }
    }

    /// The order of the message.
    pub fn get_order(&self) -> (r: &Order)
        ensures
            *r == self.order(),
    {
        match self {
            GatewayMessage::Prepare(m) => &m.order,
            GatewayMessage::Commit(m) => &m.order,
            GatewayMessage::Abort(m) => &m.order,
        }
    }

    /// The message's type, as written in frames and in the log.
    pub fn type_to_string(&self) -> (r: String)
        ensures
            self.kind() == GatewayKind::Prepare ==> r@ == "prepare"@,
            self.kind() == GatewayKind::Commit ==> r@ == "commit"@,
            self.kind() == GatewayKind::Abort ==> r@ == "abort"@,
    {
        match self {
            GatewayMessage::Prepare(m) => m.type_to_string(),
            GatewayMessage::Commit(m) => m.type_to_string(),
            GatewayMessage::Abort(m) => m.type_to_string(),
        }
    }

    /// The reply to the screen: for `prepare` it depends on whether the payment
    /// was captured, drawn with probability `CAPTURE_NUMERATOR / CAPTURE_DENOMINATOR`;
    /// `commit` is answered `finished` and `abort` is answered `abort`.
    pub fn process(&self) -> (r: Vec<u8>)
        ensures
            self.kind() == GatewayKind::Prepare ==> r@ == reply_spec(
                ScreenReply::Ready,
                self.order().order_id,
            ) || r@ == reply_spec(ScreenReply::Abort, self.order().order_id),
            self.kind() == GatewayKind::Commit ==> r@ == reply_spec(
                ScreenReply::Finished,
                self.order().order_id,
            ),
            self.kind() == GatewayKind::Abort ==> r@ == reply_spec(
                ScreenReply::Abort,
                self.order().order_id,
            ),
    {
        match self {
            GatewayMessage::Prepare(m) => m.decide(),
            GatewayMessage::Commit(m) => m.process(),
            GatewayMessage::Abort(m) => m.process(),
        }
    }
}

impl Prepare {
    /// Creates a new `Prepare` message with the given order.
    pub fn new(order: Order) -> (r: Self)
        ensures
            r.order == order,
    {
        Prepare { order }
    }

    /// The order of the message.
    pub fn get_order(&self) -> (r: &Order)
        ensures
            *r == self.order,
    {
        &self.order
    }

    /// `prepare`.
    pub fn type_to_string(&self) -> (r: String)
        ensures
            r@ == "prepare"@,
    {
        String::from_str("prepare")
    }

    /// The reply's verb: `ready` when the payment was captured, else `abort`.
    pub fn get_response_type(&self, captured: bool) -> (r: String)
        ensures
            captured ==> r@ == "ready"@,
            !captured ==> r@ == "abort"@,
    {
        if captured {
            String::from_str("ready")
        } else {
            String::from_str("abort")
        }
    }

    /// The reply line: `ready\n<id>` when the payment was captured, else
    /// `abort\n<id>`.
    pub fn process(&self, captured: bool) -> (r: Vec<u8>)
        ensures
            captured ==> r@ == reply_spec(ScreenReply::Ready, self.order.order_id),
            !captured ==> r@ == reply_spec(ScreenReply::Abort, self.order.order_id),
    {
        if captured {
            encode_reply(ScreenReply::Ready, self.order.id())
        } else {
            encode_reply(ScreenReply::Abort, self.order.id())
        }
    }

    /// Draws whether the payment is captured and gives the reply line.
    pub fn decide(&self) -> (r: Vec<u8>)
        ensures
            r@ == reply_spec(ScreenReply::Ready, self.order.order_id) || r@ == reply_spec(
                ScreenReply::Abort,
                self.order.order_id,
            ),
    {
        let captured = draw_ratio(CAPTURE_NUMERATOR, CAPTURE_DENOMINATOR);
        self.process(captured)
    }
}

impl Commit {
    /// Creates a new `Commit` message with the given order.
    pub fn new(order: Order) -> (r: Self)
        ensures
            r.order == order,
    {
        Commit { order }
    }

    /// The order of the message.
    pub fn get_order(&self) -> (r: &Order)
        ensures
            *r == self.order,
    {
        &self.order
    }

    /// `commit`.
    pub fn type_to_string(&self) -> (r: String)
        ensures
            r@ == "commit"@,
    {
        String::from_str("commit")
    }

    /// `finished`: a commit cannot fail at this point.
    pub fn get_response_type(&self) -> (r: String)
        ensures
            r@ == "finished"@,
    {
        String::from_str("finished")
    }

    /// The reply line `finished\n<id>`.
    pub fn process(&self) -> (r: Vec<u8>)
        ensures
            r@ == reply_spec(ScreenReply::Finished, self.order.order_id),
    {
        encode_reply(ScreenReply::Finished, self.order.id())
    }
}

impl Abort {
    /// Creates a new `Abort` message with the given order.
    pub fn new(order: Order) -> (r: Self)
        ensures
            r.order == order,
    {
        Abort { order }
    }

    /// The order of the message.
    pub fn get_order(&self) -> (r: &Order)
        ensures
            *r == self.order,
    {
        &self.order
    }

    /// `abort`.
    pub fn type_to_string(&self) -> (r: String)
        ensures
            r@ == "abort"@,
    {
        String::from_str("abort")
    }

    /// `abort`.
    pub fn get_response_type(&self) -> (r: String)
        ensures
            r@ == "abort"@,
    {
        String::from_str("abort")
    }

    /// The reply line `abort\n<id>`.
    pub fn process(&self) -> (r: Vec<u8>)
        ensures
            r@ == reply_spec(ScreenReply::Abort, self.order.order_id),
    {
        encode_reply(ScreenReply::Abort, self.order.id())
    }
}

/// The tag that frames a message of kind `kind`.
pub open spec fn kind_tag(kind: GatewayKind) -> Tag {
    match kind {
        GatewayKind::Prepare => Tag::Prepare,
        GatewayKind::Commit => Tag::Commit,
        GatewayKind::Abort => Tag::Abort,
    }
}

/// A frame for the payment gateway with a body that is not blank reads back as
/// its kind and its body, for every kind.
pub proof fn lemma_gateway_frame_round_trip(kind: GatewayKind, body: Seq<u8>)
    requires
        !is_blank(body),
    ensures
        check_frame_spec(frame_spec(kind_tag(kind), body)) == Ok::<(Seq<u8>, Seq<u8>), FrameError>(
            (tag_text(kind_tag(kind)), body),
        ),
        gateway_kind_spec(tag_text(kind_tag(kind))) == Some(kind),
{
    let t = tag_text(kind_tag(kind));
    let m = frame_spec(kind_tag(kind), body);
    lemma_frame_round_trip(kind_tag(kind), body);
    assert(!is_space(t[0]));
    assert(!is_blank(t));
    assert(m[0] == t[0]);
    assert(!is_blank(m));
}

} // verus!
