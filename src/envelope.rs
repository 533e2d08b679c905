//! The envelopes exchanged with the relay and their wire text.
//!
//! Every envelope is a JSON object whose `messageType` member tells which of
//! three shapes it has:
//! `{"messageType":"register","data":NAME}`,
//! `{"messageType":"users","dataArray":[NAME,...]}` and
//! `{"messageType":"message","data":PAYLOAD}`, where `PAYLOAD` is itself the
//! text of an object `{"from":NAME,"message":BODY}`.

use vstd::prelude::*;
use crate::json::{
    is_written, list_items_text, member_text, members_text, lemma_parse_object_text, members_view, object_text, parse_object,
    parse_object_exec, FieldValue, FieldView,
};
use crate::text::{push_char, push_quoted, quoted};

verus! {

/// The three values of the wire discriminator.
#[derive(Debug, Clone, Copy, PartialEq, Eq, Structural)]
pub enum MsgTypes {
    Users,
    Register,
    Message,
}

/// One unit of wire communication.
#[derive(Debug, Clone, PartialEq, Eq)]
pub enum Envelope {
    /// Sent once by the client at session start, carrying its identity.
    Register { name: String },
    /// Sent by the relay: the full list of users online now.
    RosterSnapshot { names: Vec<String> },
    /// A chat line and who wrote it.
    ChatMessage { from: String, body: String },
}

/// The mathematical value of an envelope.
pub enum EnvelopeView {
    Register { name: Seq<char> },
    RosterSnapshot { names: Seq<Seq<char>> },
    ChatMessage { from: Seq<char>, body: Seq<char> },
}

impl View for Envelope {
    type V = EnvelopeView;

    open spec fn view(&self) -> EnvelopeView {
        match self {
            Envelope::Register { name } => EnvelopeView::Register { name: name@ },
            Envelope::RosterSnapshot { names } => EnvelopeView::RosterSnapshot { names: names.deep_view() },
            Envelope::ChatMessage { from, body } => EnvelopeView::ChatMessage { from: from@, body: body@ },
        }
    }
}

/// Why an inbound text is not an envelope.
#[derive(Debug, Clone, Copy, PartialEq, Eq, Structural)]
pub enum DecodeError {
    /// The text (or the nested chat payload) is not one JSON object.
    Syntax,
    /// A member that the envelope's shape needs is absent.
    MissingField,
    /// A member holds a value of the wrong kind.
    WrongType,
    /// The discriminator names no known shape.
    UnknownType,
    /// A member that the envelope's shape reads appears more than once.
    DuplicateField,
}

pub open spec fn key_type() -> Seq<char> {
    "messageType"@
}

pub open spec fn key_data() -> Seq<char> {
    "data"@
}

pub open spec fn key_data_array() -> Seq<char> {
    "dataArray"@
}

pub open spec fn key_from() -> Seq<char> {
    "from"@
}

pub open spec fn key_message() -> Seq<char> {
    "message"@
}

/// The wire word of each discriminator value.
pub open spec fn kind_text(k: MsgTypes) -> Seq<char> {
    match k {
        MsgTypes::Users => "users"@,
        MsgTypes::Register => "register"@,
        MsgTypes::Message => "message"@,
    }
}

/// The discriminator value that a wire word names.
pub open spec fn kind_of(s: Seq<char>) -> Option<MsgTypes> {
    if s == kind_text(MsgTypes::Users) {
        Some(MsgTypes::Users)
    } else if s == kind_text(MsgTypes::Register) {
        Some(MsgTypes::Register)
    } else if s == kind_text(MsgTypes::Message) {
        Some(MsgTypes::Message)
    } else {
        None
    }
}

/// The value of the first member named `key`, from index `i` on.
pub open spec fn lookup_from(ms: Seq<(Seq<char>, FieldView)>, key: Seq<char>, i: int) -> Option<FieldView>
    decreases ms.len() - i,
{
    if i < 0 || i >= ms.len() {
        None
    } else if ms[i].0 == key {
        Some(ms[i].1)
    } else {
        lookup_from(ms, key, i + 1)
    }
}

/// How many members from index `i` on are named `key`.
pub open spec fn key_count_from(ms: Seq<(Seq<char>, FieldView)>, key: Seq<char>, i: int) -> nat
    decreases ms.len() - i,
{
    if i < 0 || i >= ms.len() {
        0
    } else {
        (if ms[i].0 == key { 1nat } else { 0nat }) + key_count_from(ms, key, i + 1)
    }
}

/// Whether more than one member is named `key`.
pub open spec fn repeats(ms: Seq<(Seq<char>, FieldView)>, key: Seq<char>) -> bool {
    key_count_from(ms, key, 0) > 1
}

/// The value of the first member named `key`.
pub open spec fn lookup(ms: Seq<(Seq<char>, FieldView)>, key: Seq<char>) -> Option<FieldView> {
    lookup_from(ms, key, 0)
}

/// An optional string member: absent and `null` both give `None`.
pub open spec fn optional_text(f: Option<FieldView>) -> Result<Option<Seq<char>>, DecodeError> {
    match f {
        None => Ok(None),
        Some(FieldView::Null) => Ok(None),
        Some(FieldView::Text(s)) => Ok(Some(s)),
        Some(_) => Err(DecodeError::WrongType),
    }
}

/// An optional list-of-strings member: absent and `null` both give `None`.
pub open spec fn optional_list(f: Option<FieldView>) -> Result<Option<Seq<Seq<char>>>, DecodeError> {
    match f {
        None => Ok(None),
        Some(FieldView::Null) => Ok(None),
        Some(FieldView::TextList(l)) => Ok(Some(l)),
        Some(_) => Err(DecodeError::WrongType),
    }
}

/// A string member that must be there.
pub open spec fn required_text(f: Option<FieldView>) -> Result<Seq<char>, DecodeError> {
    match f {
        None => Err(DecodeError::MissingField),
        Some(FieldView::Text(s)) => Ok(s),
        Some(_) => Err(DecodeError::WrongType),
    }
}

/// The sender and body that a chat payload text holds.
pub open spec fn payload_of(t: Seq<char>) -> Result<(Seq<char>, Seq<char>), DecodeError> {
    match parse_object(t) {
        None => Err(DecodeError::Syntax),
        Some(ms) => payload_of_members(ms),
    }
}

/// The sender and body that the members of a chat payload hold.
pub open spec fn payload_of_members(ms: Seq<(Seq<char>, FieldView)>) -> Result<(Seq<char>, Seq<char>), DecodeError> {
    if repeats(ms, key_from()) || repeats(ms, key_message()) {
        Err(DecodeError::DuplicateField)
    } else {
        match required_text(lookup(ms, key_from())) {
            Err(e) => Err(e),
            Ok(from) => match required_text(lookup(ms, key_message())) {
                Err(e) => Err(e),
                Ok(body) => Ok((from, body)),
            },
        }
    }
}

/// The envelope that an inbound text holds, or why it holds none.
///
/// Members other than the three of the wire format are ignored, as is any
/// whitespace between tokens; none of the three may appear twice. The
/// discriminator must be a string naming a known shape; `dataArray` and
/// `data`, where present and not `null`, must be a list of strings and a
/// string. A roster needs `dataArray`; a registration and a chat message
/// need `data`.
pub open spec fn decode_spec(t: Seq<char>) -> Result<EnvelopeView, DecodeError> {
    match parse_object(t) {
        None => Err(DecodeError::Syntax),
        Some(ms) => envelope_of_members(ms),
    }
}

/// The envelope that the members of an inbound object make, or why they
/// make none.
pub open spec fn envelope_of_members(ms: Seq<(Seq<char>, FieldView)>) -> Result<EnvelopeView, DecodeError> {
    if repeats(ms, key_type()) || repeats(ms, key_data_array()) || repeats(ms, key_data()) {
        Err(DecodeError::DuplicateField)
    } else {
        match required_text(lookup(ms, key_type())) {
            Err(e) => Err(e),
            Ok(word) => match kind_of(word) {
                None => Err(DecodeError::UnknownType),
                Some(kind) => match (optional_list(lookup(ms, key_data_array())), optional_text(lookup(ms, key_data()))) {
                    (Err(e), _) => Err(e),
                    (_, Err(e)) => Err(e),
                    (Ok(list), Ok(data)) => match kind {
                        MsgTypes::Users => match list {
                            Some(names) => Ok(EnvelopeView::RosterSnapshot { names }),
                            None => Err(DecodeError::MissingField),
                        },
                        MsgTypes::Register => match data {
                            Some(name) => Ok(EnvelopeView::Register { name }),
                            None => Err(DecodeError::MissingField),
                        },
                        MsgTypes::Message => match data {
                            Some(p) => match payload_of(p) {
                                Ok((from, body)) => Ok(EnvelopeView::ChatMessage { from, body }),
                                Err(e) => Err(e),
                            },
                            None => Err(DecodeError::MissingField),
                        },
                    },
                },
            },
        }
    }
}

/// The text of a chat payload.
pub open spec fn payload_text(from: Seq<char>, body: Seq<char>) -> Seq<char> {
    object_text(seq![(key_from(), FieldView::Text(from)), (key_message(), FieldView::Text(body))])
}

/// The members of an envelope as written, discriminator first.
pub open spec fn envelope_members(e: EnvelopeView) -> Seq<(Seq<char>, FieldView)> {
    match e {
        EnvelopeView::Register { name } => seq![
            (key_type(), FieldView::Text(kind_text(MsgTypes::Register))),
            (key_data(), FieldView::Text(name)),
        ],
        EnvelopeView::RosterSnapshot { names } => seq![
            (key_type(), FieldView::Text(kind_text(MsgTypes::Users))),
            (key_data_array(), FieldView::TextList(names)),
        ],
        EnvelopeView::ChatMessage { from, body } => seq![
            (key_type(), FieldView::Text(kind_text(MsgTypes::Message))),
            (key_data(), FieldView::Text(payload_text(from, body))),
        ],
    }
}

/// The wire text of an envelope: compact JSON, members in a fixed order.
pub open spec fn encode_spec(e: EnvelopeView) -> Seq<char> {
    object_text(envelope_members(e))
}


proof fn lemma_words()
    ensures
        key_type() != key_data(),
        key_type() != key_data_array(),
        key_data() != key_data_array(),
        key_from() != key_message(),
        kind_of(kind_text(MsgTypes::Users)) == Some(MsgTypes::Users),
        kind_of(kind_text(MsgTypes::Register)) == Some(MsgTypes::Register),
        kind_of(kind_text(MsgTypes::Message)) == Some(MsgTypes::Message),
{
    reveal_strlit("messageType");
    reveal_strlit("data");
    reveal_strlit("dataArray");
    reveal_strlit("from");
    reveal_strlit("message");
    reveal_strlit("users");
    reveal_strlit("register");
    assert(key_type().len() != key_data().len());
    assert(key_type().len() != key_data_array().len());
    assert(key_data().len() != key_data_array().len());
    assert(key_from().len() != key_message().len());
    assert(kind_text(MsgTypes::Users).len() != kind_text(MsgTypes::Register).len());
    assert(kind_text(MsgTypes::Users).len() != kind_text(MsgTypes::Message).len());
    assert(kind_text(MsgTypes::Register).len() != kind_text(MsgTypes::Message).len());
}

/// Two members with different keys: no key appears twice.
proof fn lemma_no_repeats_pair(a: Seq<char>, x: FieldView, b: Seq<char>, y: FieldView, k: Seq<char>)
    requires
        a != b,
    ensures
        !repeats(seq![(a, x), (b, y)], k),
{
    let ms = seq![(a, x), (b, y)];
    assert(ms[0].0 == a);
    assert(ms[1].0 == b);
    assert(key_count_from(ms, k, 2) == 0);
    assert(key_count_from(ms, k, 1) <= 1);
}

/// Two members with different keys: each key finds its own value.
proof fn lemma_lookup_pair(a: Seq<char>, x: FieldView, b: Seq<char>, y: FieldView)
    requires
        a != b,
    ensures
        lookup(seq![(a, x), (b, y)], a) == Some(x),
        lookup(seq![(a, x), (b, y)], b) == Some(y),
{
    let ms = seq![(a, x), (b, y)];
    assert(ms[0].0 == a && ms[0].1 == x);
    assert(ms[1].0 == b && ms[1].1 == y);
    assert(lookup_from(ms, b, 1) == Some(y));
    assert(lookup_from(ms, b, 0) == lookup_from(ms, b, 1));
}

proof fn lemma_pair_written(a: Seq<char>, x: FieldView, b: Seq<char>, y: FieldView)
    requires
        is_written(x),
        is_written(y),
    ensures
        parse_object(object_text(seq![(a, x), (b, y)])) == Some(seq![(a, x), (b, y)]),
{
    let ms = seq![(a, x), (b, y)];
    assert forall|k: int| 0 <= k < ms.len() implies is_written(#[trigger] ms[k].1) by {
        if k == 0 {
        } else {
        }
    }
    lemma_parse_object_text(ms);
}

/// A key that neither member has is not found.
proof fn lemma_lookup_absent(a: Seq<char>, x: FieldView, b: Seq<char>, y: FieldView, k: Seq<char>)
    requires
        a != k,
        b != k,
    ensures
        lookup(seq![(a, x), (b, y)], k) is None,
{
    let ms = seq![(a, x), (b, y)];
    assert(ms[0].0 == a);
    assert(ms[1].0 == b);
    assert(lookup_from(ms, k, 2) is None);
    assert(lookup_from(ms, k, 1) is None);
}

proof fn lemma_payload_round_trip(from: Seq<char>, body: Seq<char>)
    ensures
        payload_of(payload_text(from, body)) == Ok::<(Seq<char>, Seq<char>), DecodeError>((from, body)),
{
    lemma_words();
    let ms = seq![(key_from(), FieldView::Text(from)), (key_message(), FieldView::Text(body))];
    lemma_pair_written(key_from(), FieldView::Text(from), key_message(), FieldView::Text(body));
    lemma_lookup_pair(key_from(), FieldView::Text(from), key_message(), FieldView::Text(body));
    lemma_no_repeats_pair(key_from(), FieldView::Text(from), key_message(), FieldView::Text(body), key_from());
    lemma_no_repeats_pair(key_from(), FieldView::Text(from), key_message(), FieldView::Text(body), key_message());
    assert(payload_of_members(ms) == Ok::<(Seq<char>, Seq<char>), DecodeError>((from, body)));
}

/// The members that an envelope is written with read back as that envelope.
proof fn lemma_members_round_trip(e: EnvelopeView)
    ensures
        envelope_of_members(envelope_members(e)) == Ok::<EnvelopeView, DecodeError>(e),
{
    lemma_words();
    let ms = envelope_members(e);
    let (a, x) = ms[0];
    let (b, y) = ms[1];
    assert(ms =~= seq![(a, x), (b, y)]);
    lemma_lookup_pair(a, x, b, y);
    lemma_no_repeats_pair(a, x, b, y, key_type());
    lemma_no_repeats_pair(a, x, b, y, key_data());
    lemma_no_repeats_pair(a, x, b, y, key_data_array());
    match e {
        EnvelopeView::Register { name } => {
            lemma_lookup_absent(a, x, b, y, key_data_array());
        },
        EnvelopeView::RosterSnapshot { names } => {
            lemma_lookup_absent(a, x, b, y, key_data());
        },
        EnvelopeView::ChatMessage { from, body } => {
            lemma_lookup_absent(a, x, b, y, key_data_array());
            lemma_payload_round_trip(from, body);
        },
    }
}

/// Decoding the wire text of any envelope gives that envelope back.
pub proof fn lemma_decode_encode(e: EnvelopeView)
    ensures
        decode_spec(encode_spec(e)) == Ok::<EnvelopeView, DecodeError>(e),
{
    let ms = envelope_members(e);
    let pair = seq![(ms[0].0, ms[0].1), (ms[1].0, ms[1].1)];
    assert(ms =~= pair);
    lemma_pair_written(ms[0].0, ms[0].1, ms[1].0, ms[1].1);
    lemma_members_round_trip(e);
    let t = encode_spec(e);
    assert(t == object_text(pair));
    assert(parse_object(t) == Some(ms));
}

/// Whether two texts are equal, character by character.
pub fn same_text(a: &str, b: &str) -> (r: bool)
    ensures
        r == (a@ == b@),
{
    let n = a.unicode_len();
    if n != b.unicode_len() {
        return false;
    }
    let mut i: usize = 0;
    while i < n
        invariant
            n == a@.len(),
            n == b@.len(),
            i <= n,
            forall|j: int| 0 <= j < i ==> a@[j] == b@[j],
        decreases n - i,
    {
        if a.get_char(i) != b.get_char(i) {
            return false;
        }
        i = i + 1;
    }
    assert(a@ =~= b@);
    true
}

fn lookup_exec(ms: &Vec<(String, FieldValue)>, key: &str) -> (r: Option<usize>)
    ensures
        match r {
            Some(k) => k < ms@.len() && lookup(members_view(ms@), key@) == Some(ms@[k as int].1@),
            None => lookup(members_view(ms@), key@) is None,
        },
{
    let ghost v = members_view(ms@);
    let mut i: usize = 0;
    while i < ms.len()
        invariant
            v == members_view(ms@),
            i <= ms@.len(),
            lookup(v, key@) == lookup_from(v, key@, i as int),
        decreases ms@.len() - i,
    {
        if same_text(ms[i].0.as_str(), key) {
            return Some(i);
        }
        i = i + 1;
    }
    None
}

fn repeats_exec(ms: &Vec<(String, FieldValue)>, key: &str) -> (r: bool)
    ensures
        r == repeats(members_view(ms@), key@),
{
    let ghost v = members_view(ms@);
    let mut count: usize = 0;
    let mut i: usize = 0;
    while i < ms.len()
        invariant
            v == members_view(ms@),
            i <= ms@.len(),
            count <= i,
            key_count_from(v, key@, 0) == count + key_count_from(v, key@, i as int),
        decreases ms@.len() - i,
    {
        if same_text(ms[i].0.as_str(), key) {
            count = count + 1;
        }
        i = i + 1;
    }
    count > 1
}

fn copy_texts(l: &Vec<String>) -> (r: Vec<String>)
    ensures
        r.deep_view() == l.deep_view(),
{
    let mut r: Vec<String> = Vec::new();
    let mut i: usize = 0;
    while i < l.len()
        invariant
            i <= l@.len(),
            r@.len() == i,
            forall|j: int| 0 <= j < i ==> #[trigger] r@[j]@ == l@[j]@,
        decreases l@.len() - i,
    {
        r.push(l[i].clone());
        i = i + 1;
    }
    assert(r.deep_view() =~= l.deep_view());
    r
}

fn optional_text_exec(ms: &Vec<(String, FieldValue)>, key: &str) -> (r: Result<Option<String>, DecodeError>)
    ensures
        match r {
            Ok(Some(s)) => optional_text(lookup(members_view(ms@), key@)) == Ok::<Option<Seq<char>>, DecodeError>(Some(s@)),
            Ok(None) => optional_text(lookup(members_view(ms@), key@)) == Ok::<Option<Seq<char>>, DecodeError>(None),
            Err(e) => optional_text(lookup(members_view(ms@), key@)) == Err::<Option<Seq<char>>, DecodeError>(e),
        },
{
    match lookup_exec(ms, key) {
        None => Ok(None),
        Some(k) => match &ms[k].1 {
            FieldValue::Null => Ok(None),
            FieldValue::Text(s) => Ok(Some(s.clone())),
            _ => Err(DecodeError::WrongType),
        },
    }
}

fn optional_list_exec(ms: &Vec<(String, FieldValue)>, key: &str) -> (r: Result<Option<Vec<String>>, DecodeError>)
    ensures
        match r {
            Ok(Some(l)) => optional_list(lookup(members_view(ms@), key@)) == Ok::<Option<Seq<Seq<char>>>, DecodeError>(Some(l.deep_view())),
            Ok(None) => optional_list(lookup(members_view(ms@), key@)) == Ok::<Option<Seq<Seq<char>>>, DecodeError>(None),
            Err(e) => optional_list(lookup(members_view(ms@), key@)) == Err::<Option<Seq<Seq<char>>>, DecodeError>(e),
        },
{
    match lookup_exec(ms, key) {
        None => Ok(None),
        Some(k) => match &ms[k].1 {
            FieldValue::Null => Ok(None),
            FieldValue::TextList(l) => Ok(Some(copy_texts(l))),
            _ => Err(DecodeError::WrongType),
        },
    }
}

fn required_text_exec(ms: &Vec<(String, FieldValue)>, key: &str) -> (r: Result<String, DecodeError>)
    ensures
        match r {
            Ok(s) => required_text(lookup(members_view(ms@), key@)) == Ok::<Seq<char>, DecodeError>(s@),
            Err(e) => required_text(lookup(members_view(ms@), key@)) == Err::<Seq<char>, DecodeError>(e),
        },
{
    match lookup_exec(ms, key) {
        None => Err(DecodeError::MissingField),
        Some(k) => match &ms[k].1 {
            FieldValue::Text(s) => Ok(s.clone()),
            _ => Err(DecodeError::WrongType),
        },
    }
}

/// Reads the sender and body out of a chat payload text.
pub fn decode_payload(t: &str) -> (r: Result<(String, String), DecodeError>)
    ensures
        match r {
            Ok((from, body)) => payload_of(t@) == Ok::<(Seq<char>, Seq<char>), DecodeError>((from@, body@)),
            Err(e) => payload_of(t@) == Err::<(Seq<char>, Seq<char>), DecodeError>(e),
        },
{
    match parse_object_exec(t) {
        None => Err(DecodeError::Syntax),
        Some(ms) => {
            if repeats_exec(&ms, "from") || repeats_exec(&ms, "message") {
                return Err(DecodeError::DuplicateField);
            }
            let from = match required_text_exec(&ms, "from") {
                Ok(s) => s,
                Err(e) => return Err(e),
            };
            let body = match required_text_exec(&ms, "message") {
                Ok(s) => s,
                Err(e) => return Err(e),
            };
            Ok((from, body))
        },
    }
}

fn kind_of_exec(word: &str) -> (r: Option<MsgTypes>)
    ensures
        r == kind_of(word@),
{
    if same_text(word, "users") {
        Some(MsgTypes::Users)
    } else if same_text(word, "register") {
        Some(MsgTypes::Register)
    } else if same_text(word, "message") {
        Some(MsgTypes::Message)
    } else {
        None
    }
}

/// Reads an inbound text as an envelope, or says why it is none.
pub fn decode(t: &str) -> (r: Result<Envelope, DecodeError>)
    ensures
        match r {
            Ok(e) => decode_spec(t@) == Ok::<EnvelopeView, DecodeError>(e@),
            Err(x) => decode_spec(t@) == Err::<EnvelopeView, DecodeError>(x),
        },
{
    let ms = match parse_object_exec(t) {
        None => return Err(DecodeError::Syntax),
        Some(ms) => ms,
    };
    if repeats_exec(&ms, "messageType") || repeats_exec(&ms, "dataArray") || repeats_exec(&ms, "data") {
        return Err(DecodeError::DuplicateField);
    }
    let word = match required_text_exec(&ms, "messageType") {
        Ok(s) => s,
        Err(e) => return Err(e),
    };
    let kind = match kind_of_exec(word.as_str()) {
        None => return Err(DecodeError::UnknownType),
        Some(k) => k,
    };
    let list = match optional_list_exec(&ms, "dataArray") {
        Ok(l) => l,
        Err(e) => return Err(e),
    };
    let data = match optional_text_exec(&ms, "data") {
        Ok(d) => d,
        Err(e) => return Err(e),
    };
    match kind {
        MsgTypes::Users => match list {
            Some(names) => Ok(Envelope::RosterSnapshot { names }),
            None => Err(DecodeError::MissingField),
        },
        MsgTypes::Register => match data {
            Some(name) => Ok(Envelope::Register { name }),
            None => Err(DecodeError::MissingField),
        },
        MsgTypes::Message => match data {
            Some(p) => match decode_payload(p.as_str()) {
                Ok((from, body)) => Ok(Envelope::ChatMessage { from, body }),
                Err(e) => Err(e),
            },
            None => Err(DecodeError::MissingField),
        },
    }
}

/// Appends `"key":"value"`.
fn push_text_member(out: &mut String, key: &str, value: &str)
    ensures
        final(out)@ == old(out)@ + member_text((key@, FieldView::Text(value@))),
{
    push_quoted(out, key);
    push_char(out, ':');
    push_quoted(out, value);
    assert(out@ =~= old(out)@ + member_text((key@, FieldView::Text(value@))));
}

proof fn lemma_list_items_push(l: Seq<Seq<char>>, x: Seq<char>)
    requires
        l.len() > 0,
    ensures
        list_items_text(l.push(x)) == list_items_text(l) + seq![','] + quoted(x),
    decreases l.len(),
{
    assert(l.push(x)[0] == l[0]);
    if l.len() == 1 {
        assert(l.push(x).drop_first() =~= seq![x]);
        assert(list_items_text(seq![x]) == quoted(x));
        assert(list_items_text(l) == quoted(l[0]));
    } else {
        lemma_list_items_push(l.drop_first(), x);
        assert(l.push(x).drop_first() =~= l.drop_first().push(x));
        assert(list_items_text(l.push(x)) =~= list_items_text(l) + seq![','] + quoted(x));
    }
}

/// Appends `"key":[...]`.
fn push_list_member(out: &mut String, key: &str, names: &Vec<String>)
    ensures
        final(out)@ == old(out)@ + member_text((key@, FieldView::TextList(names.deep_view()))),
{
    push_quoted(out, key);
    push_char(out, ':');
    push_char(out, '[');
    let ghost head = out@;
    let ghost l = names.deep_view();
    let mut i: usize = 0;
    assert(l.subrange(0, 0) =~= Seq::<Seq<char>>::empty());
    while i < names.len()
        invariant
            l == names.deep_view(),
            i <= l.len(),
            out@ == head + list_items_text(l.subrange(0, i as int)),
        decreases l.len() - i,
    {
        if i > 0 {
            push_char(out, ',');
        }
        push_quoted(out, names[i].as_str());
        proof {
            let p = l.subrange(0, i as int);
            assert(p.push(l[i as int]) =~= l.subrange(0, i + 1));
            if i > 0 {
                lemma_list_items_push(p, l[i as int]);
            } else {
                assert(l.subrange(0, 1) =~= seq![l[0]]);
            }
            assert(out@ =~= head + list_items_text(l.subrange(0, i + 1)));
        }
        i = i + 1;
    }
    push_char(out, ']');
    assert(l.subrange(0, l.len() as int) =~= l);
    assert(out@ =~= old(out)@ + member_text((key@, FieldView::TextList(l))));
}

proof fn lemma_pair_text(a: (Seq<char>, FieldView), b: (Seq<char>, FieldView))
    ensures
        object_text(seq![a, b]) == seq!['{'] + member_text(a) + seq![','] + member_text(b) + seq!['}'],
{
    let ms = seq![a, b];
    assert(ms.drop_first() =~= seq![b]);
    assert(members_text(seq![b]) == member_text(b));
    assert(object_text(ms) =~= seq!['{'] + member_text(a) + seq![','] + member_text(b) + seq!['}']);
}

/// The text of the chat payload `{"from":FROM,"message":BODY}`.
pub fn encode_payload(from: &str, body: &str) -> (r: String)
    ensures
        r@ == payload_text(from@, body@),
{
    let mut out = String::new();
    push_char(&mut out, '{');
    push_text_member(&mut out, "from", from);
    push_char(&mut out, ',');
    push_text_member(&mut out, "message", body);
    push_char(&mut out, '}');
    proof {
        lemma_pair_text((key_from(), FieldView::Text(from@)), (key_message(), FieldView::Text(body@)));
    }
    assert(out@ =~= payload_text(from@, body@));
    out
}

/// The wire text of an envelope.
pub fn encode(e: &Envelope) -> (r: String)
    ensures
        r@ == encode_spec(e@),
{
    let mut out = String::new();
    push_char(&mut out, '{');
    match e {
        Envelope::Register { name } => {
            push_text_member(&mut out, "messageType", "register");
            push_char(&mut out, ',');
            push_text_member(&mut out, "data", name.as_str());
        },
        Envelope::RosterSnapshot { names } => {
            push_text_member(&mut out, "messageType", "users");
            push_char(&mut out, ',');
            push_list_member(&mut out, "dataArray", names);
        },
        Envelope::ChatMessage { from, body } => {
            let payload = encode_payload(from.as_str(), body.as_str());
            push_text_member(&mut out, "messageType", "message");
            push_char(&mut out, ',');
            push_text_member(&mut out, "data", payload.as_str());
        },
    }
    push_char(&mut out, '}');
    proof {
        let ms = envelope_members(e@);
        lemma_pair_text(ms[0], ms[1]);
        assert(ms =~= seq![ms[0], ms[1]]);
    }
    assert(out@ =~= encode_spec(e@));
    out
}

/// The frame that sends a chat line from this client:
/// `{"messageType":"message","data":BODY}`. The relay adds the sender and
/// hands the line back to every client, this one included.
pub open spec fn outbound_text(body: Seq<char>) -> Seq<char> {
    object_text(seq![(key_type(), FieldView::Text(kind_text(MsgTypes::Message))), (key_data(), FieldView::Text(body))])
}

/// The frame that sends a chat line from this client.
pub fn encode_outbound(body: &str) -> (r: String)
    ensures
        r@ == outbound_text(body@),
{
    let mut out = String::new();
    push_char(&mut out, '{');
    push_text_member(&mut out, "messageType", "message");
    push_char(&mut out, ',');
    push_text_member(&mut out, "data", body);
    push_char(&mut out, '}');
    proof {
        lemma_pair_text(
            (key_type(), FieldView::Text(kind_text(MsgTypes::Message))),
            (key_data(), FieldView::Text(body@)),
        );
    }
    assert(out@ =~= outbound_text(body@));
    out
}

} // verus!
