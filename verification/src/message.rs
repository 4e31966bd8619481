use vstd::prelude::*;
use vstd::string::StringExecFns;

verus! {

#[verifier::external_type_specification]
#[verifier::external_body]
pub struct ExJsonError(serde_json::Error);

/// The character of the hexadecimal digit `d` (`0 <= d < 16`), lower case.
pub open spec fn hex_digit_char(d: int) -> char {
    if d < 10 {
        (48 + d) as char
    } else {
        (87 + d) as char
    }
}

/// How `serde_json` writes one character inside a JSON string: `"` and `\`
/// behind a backslash, the five controls with a short escape as `\b`, `\t`,
/// `\n`, `\f`, `\r`, every other character below U+0020 as `\u00xx` (lower
/// case hexadecimal), and every other character as it is.
pub open spec fn json_escape_char(c: char) -> Seq<char> {
    if c == '"' {
        seq!['\\', '"']
    } else if c == '\\' {
        seq!['\\', '\\']
    } else if c == '\x08' {
        seq!['\\', 'b']
    } else if c == '\t' {
        seq!['\\', 't']
    } else if c == '\n' {
        seq!['\\', 'n']
    } else if c == '\x0c' {
        seq!['\\', 'f']
    } else if c == '\r' {
        seq!['\\', 'r']
    } else if (c as int) < 32 {
        seq!['\\', 'u', '0', '0', hex_digit_char(c as int / 16), hex_digit_char(c as int % 16)]
    } else {
        seq![c]
    }
}

/// The characters of a text, each written as `json_escape_char` says.
pub open spec fn json_escaped(text: Seq<char>) -> Seq<char>
    decreases text.len(),
{
    if text.len() == 0 {
        Seq::empty()
    } else {
        json_escaped(text.drop_last()) + json_escape_char(text.last())
    }
}

/// What `serde_json` writes for a string value: the escaped text between
/// double quotes.
pub open spec fn json_string_literal(text: Seq<char>) -> Seq<char> {
    seq!['"'] + json_escaped(text) + seq!['"']
}

/// Encodes `text` as a JSON string value with `serde_json::to_string`.
/// Claimed: the call succeeds, and its result is `json_string_literal` of the
/// text. `to_string` writes into a `Vec<u8>`, whose writes never fail, and
/// `format_escaped_str` with its `ESCAPE` table writes each character as
/// `json_escape_char` says, between two double quotes.
#[verifier::external_body]
fn encode_json_string(text: &str) -> (res: Result<String, serde_json::Error>)
    ensures
        res is Ok,
        res matches Ok(encoded) ==> encoded@ == json_string_literal(text@),
{
    serde_json::to_string(text)
}

/// A message handed to the host application: what kind of data it carries,
/// and the data itself (usually JSON too).
#[derive(Clone, Debug)]
pub struct OutgoingMessage<'a, 'b> {
    pub data_type: &'a str,
    pub data: &'b str,
}

/// The JSON object `{"data_type":<t>,"data":<d>}` built from two values that
/// are already JSON-encoded.
pub open spec fn outgoing_frame(encoded_type: Seq<char>, encoded_data: Seq<char>) -> Seq<char> {
    seq!['{', '"', 'd', 'a', 't', 'a', '_', 't', 'y', 'p', 'e', '"', ':'] + encoded_type + seq![
        ',',
        '"',
        'd',
        'a',
        't',
        'a',
        '"',
        ':',
    ] + encoded_data + seq!['}']
}

/// The JSON text of an outgoing message with the given type and data.
pub open spec fn outgoing_message_text(data_type: Seq<char>, data: Seq<char>) -> Seq<char> {
    outgoing_frame(json_string_literal(data_type), json_string_literal(data))
}

/// Builds the JSON object of an outgoing message from its two fields, each
/// already encoded as a JSON string value; fields in declaration order, no
/// whitespace.
pub fn frame_outgoing_message(encoded_type: &str, encoded_data: &str) -> (res: String)
    ensures
        res@ == outgoing_frame(encoded_type@, encoded_data@),
{
    let mut out = String::from_str("{\"data_type\":");
    out.append(encoded_type);
    out.append(",\"data\":");
    out.append(encoded_data);
    out.append("}");
    proof {
        reveal_strlit("{\"data_type\":");
        reveal_strlit(",\"data\":");
        reveal_strlit("}");
    }
    assert(out@ =~= outgoing_frame(encoded_type@, encoded_data@));
    out
}

impl<'a, 'b> OutgoingMessage<'a, 'b> {
    /// The JSON text of this message.
    pub fn to_json(&self) -> (res: String)
        ensures
            res@ == outgoing_message_text(self.data_type@, self.data@),
    {
        let encoded_type = encode_json_string(self.data_type).unwrap();
        let encoded_data = encode_json_string(self.data).unwrap();
        frame_outgoing_message(encoded_type.as_str(), encoded_data.as_str())
    }
}

/// The JSON text handed to the host application for data of the given type.
pub fn generate_outgoing_message(data_type: &str, data: &str) -> (res: String)
    ensures
        res@ == outgoing_message_text(data_type@, data@),
{
    let message = OutgoingMessage { data_type, data };
    message.to_json()
}

/// The kinds of output the module hands to the host application; each is
/// told apart by the `data_type` field of the outgoing message.
#[derive(Clone, Copy, Debug, PartialEq, Eq)]
pub enum OutputKind {
    /// The local key share produced by key generation.
    Key,
    /// The completed offline stage of signing.
    OfflineStage,
    /// This party's partial signature.
    PartialSignature,
    /// The public key of the signing group.
    PublicKey,
    /// The completed signature.
    Signature,
    /// A protocol message to broadcast to the other parties.
    Broadcast,
}

impl OutputKind {
    /// The `data_type` text of this kind of output.
    pub open spec fn label(self) -> Seq<char> {
        match self {
            OutputKind::Key => seq!['k', 'e', 'y'],
            OutputKind::OfflineStage => seq!['s', 't', 'a', 'g', 'e'],
            OutputKind::PartialSignature => seq![
                'p', 'a', 'r', 't', 'i', 'a', 'l', '_', 's', 'i', 'g', 'n', 'a', 't', 'u', 'r', 'e',
            ],
            OutputKind::PublicKey => seq!['p', 'u', 'b', 'l', 'i', 'c', '_', 'k', 'e', 'y'],
            OutputKind::Signature => seq!['s', 'i', 'g', 'n', 'a', 't', 'u', 'r', 'e'],
            OutputKind::Broadcast => seq!['b', 'r', 'o', 'a', 'd', 'c', 'a', 's', 't'],
        }
    }

    /// The `data_type` text of this kind of output.
    pub fn data_type(&self) -> (res: &'static str)
        ensures
            res@ == self.label(),
    {
        match self {
            OutputKind::Key => {
                let s = "key";
                proof {
                    reveal_strlit("key");
                }
                s
            },
            OutputKind::OfflineStage => {
                let s = "stage";
                proof {
                    reveal_strlit("stage");
                }
                s
            },
            OutputKind::PartialSignature => {
                let s = "partial_signature";
                proof {
                    reveal_strlit("partial_signature");
                }
                s
            },
            OutputKind::PublicKey => {
                let s = "public_key";
                proof {
                    reveal_strlit("public_key");
                }
                s
            },
            OutputKind::Signature => {
                let s = "signature";
                proof {
                    reveal_strlit("signature");
                }
                s
            },
            OutputKind::Broadcast => {
                let s = "broadcast";
                proof {
                    reveal_strlit("broadcast");
                }
                s
            },
        }
    }
}

/// Whether a text holds no control character (nothing below U+0020, so in
/// particular no NUL).
pub open spec fn free_of_control_chars(text: Seq<char>) -> bool {
    forall|i: int| 0 <= i < text.len() ==> (#[trigger] text[i]) as int >= 32
}

proof fn lemma_concat_free(a: Seq<char>, b: Seq<char>)
    requires
        free_of_control_chars(a),
        free_of_control_chars(b),
    ensures
        free_of_control_chars(a + b),
{
    assert forall|i: int| 0 <= i < (a + b).len() implies (#[trigger] (a + b)[i]) as int >= 32 by {
        if i < a.len() {
            assert((a + b)[i] == a[i]);
        } else {
            assert((a + b)[i] == b[i - a.len()]);
        }
    }
}

proof fn lemma_escape_char_free(c: char)
    ensures
        free_of_control_chars(json_escape_char(c)),
{
    let e = json_escape_char(c);
    if (c as int) < 32 && c != '\x08' && c != '\t' && c != '\n' && c != '\x0c' && c != '\r' {
        assert(0 <= c as int / 16 < 16);
        assert(0 <= c as int % 16 < 16);
        assert(e[4] as int >= 48);
        assert(e[5] as int >= 48);
    }
}

proof fn lemma_escaped_free(text: Seq<char>)
    ensures
        free_of_control_chars(json_escaped(text)),
    decreases text.len(),
{
    if text.len() > 0 {
        lemma_escaped_free(text.drop_last());
        lemma_escape_char_free(text.last());
        lemma_concat_free(json_escaped(text.drop_last()), json_escape_char(text.last()));
    }
}

/// The JSON text of an outgoing message holds no control character, whatever
/// its type and data hold, so the host can always take it as a C string.
pub proof fn outgoing_message_free_of_control_chars(data_type: Seq<char>, data: Seq<char>)
    ensures
        free_of_control_chars(outgoing_message_text(data_type, data)),
{
    lemma_escaped_free(data_type);
    lemma_escaped_free(data);
    let open_type = seq!['{', '"', 'd', 'a', 't', 'a', '_', 't', 'y', 'p', 'e', '"', ':'];
    let open_data = seq![',', '"', 'd', 'a', 't', 'a', '"', ':'];
    let quote = seq!['"'];
    let close = seq!['}'];
    assert(free_of_control_chars(open_type));
    assert(free_of_control_chars(open_data));
    assert(free_of_control_chars(quote));
    assert(free_of_control_chars(close));
    lemma_concat_free(quote, json_escaped(data_type));
    lemma_concat_free(quote + json_escaped(data_type), quote);
    lemma_concat_free(quote, json_escaped(data));
    lemma_concat_free(quote + json_escaped(data), quote);
    let t = json_string_literal(data_type);
    let d = json_string_literal(data);
    lemma_concat_free(open_type, t);
    lemma_concat_free(open_type + t, open_data);
    lemma_concat_free(open_type + t + open_data, d);
    lemma_concat_free(open_type + t + open_data + d, close);
}

/// The outgoing message is the object `{"data_type":<t>,"data":<d>}`: the
/// encoded type stands after `"data_type":` and the encoded data after
/// `"data":`, whatever their lengths.
pub proof fn outgoing_message_layout(data_type: Seq<char>, data: Seq<char>)
    ensures
        outgoing_message_text(data_type, data) == seq![
            '{',
            '"',
            'd',
            'a',
            't',
            'a',
            '_',
            't',
            'y',
            'p',
            'e',
            '"',
            ':',
        ] + json_string_literal(data_type) + seq![',', '"', 'd', 'a', 't', 'a', '"', ':']
            + json_string_literal(data) + seq!['}'],
{
}

proof fn lemma_plain_text_escapes_to_itself(text: Seq<char>)
    requires
        forall|i: int|
            0 <= i < text.len() ==> (#[trigger] text[i]) as int >= 32 && text[i] != '"' && text[i]
                != '\\',
    ensures
        json_escaped(text) == text,
    decreases text.len(),
{
    if text.len() > 0 {
        let front = text.drop_last();
        assert forall|i: int| 0 <= i < front.len() implies (#[trigger] front[i]) as int >= 32
            && front[i] != '"' && front[i] != '\\' by {
            assert(front[i] == text[i]);
        }
        lemma_plain_text_escapes_to_itself(front);
        let c = text.last();
        assert(c == text[text.len() - 1]);
        assert(json_escape_char(c) == seq![c]);
        assert(front.push(c) =~= text);
        assert(front + seq![c] =~= text);
    }
}

/// A text without control characters, double quotes or backslashes is
/// encoded as itself between double quotes: the encoding keeps every
/// character that JSON does not require to be escaped.
pub proof fn plain_text_encodes_verbatim(text: Seq<char>)
    requires
        forall|i: int|
            0 <= i < text.len() ==> (#[trigger] text[i]) as int >= 32 && text[i] != '"' && text[i]
                != '\\',
    ensures
        json_string_literal(text) == seq!['"'] + text + seq!['"'],
{
    lemma_plain_text_escapes_to_itself(text);
}

/// Different kinds of output carry different `data_type` texts, so the host
/// application can always tell them apart.
pub proof fn output_labels_distinct(a: OutputKind, b: OutputKind)
    requires
        a != b,
    ensures
        a.label() != b.label(),
{
    let la = a.label();
    let lb = b.label();
    if la.len() == lb.len() {
        assert(la[0] != lb[0] || la[1] != lb[1]);
    }
}

} // verus!
