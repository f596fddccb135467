//! The waybar output line: a JSON object with the keys `class`, `text` and
//! `tooltip`, built and written by `serde_json`.

use vstd::prelude::*;

verus! {

/// A lowercase hexadecimal digit.
pub open spec fn hex_digit(d: nat) -> char {
    if d < 10 {
        ((48 + d) as u8) as char
    } else {
        ((87 + d) as u8) as char
    }
}

/// How `serde_json` writes one character inside a string: `"` and `\` get a
/// backslash, backspace, tab, line feed, form feed and carriage return get
/// their short escapes, the other control characters below U+0020 become
/// `\u00XX` in lowercase hex, everything else is written as it is.
pub open spec fn json_escape_char(c: char) -> Seq<char> {
    let u = c as u32;
    if c == '"' {
        seq!['\\', '"']
    } else if c == '\\' {
        seq!['\\', '\\']
    } else if u == 0x08 {
        seq!['\\', 'b']
    } else if u == 0x09 {
        seq!['\\', 't']
    } else if u == 0x0A {
        seq!['\\', 'n']
    } else if u == 0x0C {
        seq!['\\', 'f']
    } else if u == 0x0D {
        seq!['\\', 'r']
    } else if u < 0x20 {
        seq!['\\', 'u', '0', '0', hex_digit((u / 16) as nat), hex_digit((u % 16) as nat)]
    } else {
        seq![c]
    }
}

/// The escaped contents of a JSON string.
pub open spec fn json_escape(s: Seq<char>) -> Seq<char>
    decreases s.len(),
{
    if s.len() == 0 {
        Seq::empty()
    } else {
        json_escape(s.drop_last()) + json_escape_char(s.last())
    }
}

/// A JSON string literal.
pub open spec fn json_string(s: Seq<char>) -> Seq<char> {
    seq!['"'] + json_escape(s) + seq!['"']
}

/// The compact JSON object `{"class":..,"text":..,"tooltip":..}`; `serde_json`
/// keeps object keys sorted (its map is a `BTreeMap` unless `preserve_order`
/// is on, which this crate does not turn on).
pub open spec fn waybar_object_spec(text: Seq<char>, tooltip: Seq<char>, class: Seq<char>) -> Seq<char> {
    "{\"class\":"@ + json_string(class) + ",\"text\":"@ + json_string(text) + ",\"tooltip\":"@
        + json_string(tooltip) + "}"@
}

/// No control character: nothing below U+0020.
pub open spec fn no_control(s: Seq<char>) -> bool {
    forall|i: int| 0 <= i < s.len() ==> (#[trigger] s[i] as u32) >= 0x20
}

proof fn lemma_escape_no_control(s: Seq<char>)
    ensures
        no_control(json_escape(s)),
    decreases s.len(),
{
    if s.len() > 0 {
        lemma_escape_no_control(s.drop_last());
        let a = json_escape(s.drop_last());
        let b = json_escape_char(s.last());
        let u = s.last() as u32;
        if u < 0x20 && u != 0x08 && u != 0x09 && u != 0x0A && u != 0x0C && u != 0x0D {
            assert(u / 16 < 2);
            assert((hex_digit((u / 16) as nat) as u32) >= 48);
            assert((hex_digit((u % 16) as nat) as u32) >= 48);
        }
        assert forall|i: int| 0 <= i < b.len() implies (#[trigger] b[i] as u32) >= 0x20 by {}
        assert forall|i: int| 0 <= i < (a + b).len() implies (#[trigger] (a + b)[i] as u32) >= 0x20 by {
            if i < a.len() {
                assert((a + b)[i] == a[i]);
            } else {
                assert((a + b)[i] == b[i - a.len()]);
            }
        }
    }
}

proof fn lemma_concat_no_control(a: Seq<char>, b: Seq<char>)
    requires
        no_control(a),
        no_control(b),
    ensures
        no_control(a + b),
{
    assert forall|i: int| 0 <= i < (a + b).len() implies (#[trigger] (a + b)[i] as u32) >= 0x20 by {
        if i < a.len() {
            assert((a + b)[i] == a[i]);
        } else {
            assert((a + b)[i] == b[i - a.len()]);
        }
    }
}

/// The waybar line is one line: whatever the texts hold, the written object
/// has no control character, so no line break either.
pub proof fn law_waybar_object_is_one_line(text: Seq<char>, tooltip: Seq<char>, class: Seq<char>)
    ensures
        no_control(waybar_object_spec(text, tooltip, class)),
{
    reveal_strlit("{\"class\":");
    reveal_strlit(",\"text\":");
    reveal_strlit(",\"tooltip\":");
    reveal_strlit("}");
    lemma_escape_no_control(text);
    lemma_escape_no_control(tooltip);
    lemma_escape_no_control(class);
    let q = seq!['"'];
    assert(no_control(q));
    lemma_concat_no_control(q, json_escape(class));
    lemma_concat_no_control(q + json_escape(class), q);
    lemma_concat_no_control(q, json_escape(text));
    lemma_concat_no_control(q + json_escape(text), q);
    lemma_concat_no_control(q, json_escape(tooltip));
    lemma_concat_no_control(q + json_escape(tooltip), q);
    let l1 = "{\"class\":"@;
    let l2 = ",\"text\":"@;
    let l3 = ",\"tooltip\":"@;
    let l4 = "}"@;
    assert(no_control(l1));
    assert(no_control(l2));
    assert(no_control(l3));
    assert(no_control(l4));
    let c = json_string(class);
    let t = json_string(text);
    let p = json_string(tooltip);
    lemma_concat_no_control(l1, c);
    lemma_concat_no_control(l1 + c, l2);
    lemma_concat_no_control(l1 + c + l2, t);
    lemma_concat_no_control(l1 + c + l2 + t, l3);
    lemma_concat_no_control(l1 + c + l2 + t + l3, p);
    lemma_concat_no_control(l1 + c + l2 + t + l3 + p, l4);
}

/// Builds a `serde_json::Value::Object` with the three string entries `text`,
/// `tooltip` and `class` and writes it with `Display` (compact form). The
/// contract states the text that `serde_json`'s compact writer produces for
/// it: sorted keys, no spaces, strings escaped as `json_escape_char` says.
#[verifier::external_body]
pub(crate) fn waybar_object(text: &str, tooltip: &str, class: &str) -> (r: String)
    ensures
        r@ == waybar_object_spec(text@, tooltip@, class@),
{
    let mut m = serde_json::Map::new();
    m.insert("text".to_string(), serde_json::Value::String(text.to_string()));
    m.insert("tooltip".to_string(), serde_json::Value::String(tooltip.to_string()));
    m.insert("class".to_string(), serde_json::Value::String(class.to_string()));
    serde_json::Value::Object(m).to_string()
}

} // verus!
