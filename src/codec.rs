//! Wire codec: embeds JSON text into a script that the web view evaluates.
//!
//! Small values, and values that are neither objects nor arrays, go in as a
//! literal. Large objects and arrays go in as `JSON.parse('...')`, which script
//! engines parse faster than a large literal.

use vstd::prelude::*;
use vstd::utf8::encode_utf8;
use crate::text::{decimal, lemma_decimal_injective, lemma_decimal_no_comma, push_char, push_decimal};

verus! {

/// From this many bytes on, an object or array is embedded through `JSON.parse`.
pub const MIN_JSON_PARSE_LEN: usize = 10_240;

/// Script engines refuse string literals of this many bytes or more.
pub const MAX_JSON_STR_LEN: usize = 1_073_741_822;

/// Length in bytes of the UTF-8 encoding of `s`.
pub open spec fn byte_len(s: Seq<char>) -> nat {
    encode_utf8(s).len()
}

/// One character as it stands inside a single-quoted script string.
pub open spec fn escape_char(c: char) -> Seq<char> {
    if c == '\\' || c == '\'' {
        seq!['\\', c]
    } else {
        seq![c]
    }
}

/// `s` with a backslash put before every backslash and single quote.
pub open spec fn escape_single_quoted(s: Seq<char>) -> Seq<char>
    decreases s.len(),
{
    if s.len() == 0 {
        seq![]
    } else {
        escape_single_quoted(s.drop_last()) + escape_char(s.last())
    }
}

/// The text of a single-quoted script string literal, read back: a backslash
/// stands for the character after it.
pub open spec fn unescape_single_quoted(s: Seq<char>) -> Seq<char>
    decreases s.len(),
{
    if s.len() == 0 {
        seq![]
    } else if s[0] == '\\' && s.len() >= 2 {
        seq![s[1]] + unescape_single_quoted(s.subrange(2, s.len() as int))
    } else {
        seq![s[0]] + unescape_single_quoted(s.drop_first())
    }
}

/// The script expression `JSON.parse('<json>')`, with `json` escaped.
pub open spec fn json_parse_expr(json: Seq<char>) -> Seq<char> {
    "JSON.parse('"@ + escape_single_quoted(json) + "')"@
}

/// Whether `json` is embedded through `JSON.parse` rather than as a literal.
pub open spec fn uses_json_parse(json: Seq<char>) -> bool {
    &&& byte_len(json) >= MIN_JSON_PARSE_LEN
    &&& (json[0] == '{' || json[0] == '[')
    &&& byte_len(json_parse_expr(json)) < MAX_JSON_STR_LEN
}

/// The script expression that evaluates to the value that `json` denotes.
pub open spec fn embedded(json: Seq<char>) -> Seq<char> {
    if uses_json_parse(json) {
        json_parse_expr(json)
    } else {
        json
    }
}

proof fn lemma_escape_push(s: Seq<char>, c: char)
    ensures
        escape_single_quoted(s.push(c)) == escape_single_quoted(s) + escape_char(c),
{
    assert(s.push(c).drop_last() =~= s);
}

/// Builds `JSON.parse('<json>')`, the form that serialize_to_javascript's
/// `Serialized::new` produces with default options.
pub fn json_parse_call(json: &str) -> (r: String)
    ensures
        r@ == json_parse_expr(json@),
{
    let mut out = String::from_str("JSON.parse('");
    let ghost prefix = out@;
    for c in it: json.chars()
        invariant
            it.seq() == json@,
            out@ == prefix + escape_single_quoted(json@.take(it.index() as int)),
    {
        proof {
            lemma_escape_push(json@.take(it.index() as int), c);
            assert(json@.take(it.index() as int + 1) =~= json@.take(it.index() as int).push(c));
        }
        if c == '\\' || c == '\'' {
            push_char(&mut out, '\\');
        }
        push_char(&mut out, c);
        proof {
            assert(out@ =~= prefix + escape_single_quoted(json@.take(it.index() as int + 1)));
        }
    }
    proof {
        assert(json@.take(json@.len() as int) =~= json@);
    }
    out.append("')");
    out
}

/// Embeds the JSON text `json` in a script: as `JSON.parse('...')` where it
/// is a large object or array, else as it stands.
pub fn embed_json(json: &str) -> (r: String)
    ensures
        r@ == embedded(json@),
{
    if json.as_bytes().len() >= MIN_JSON_PARSE_LEN {
        assert(json@.len() > 0);
        let first = json.get_char(0);
        if first == '{' || first == '[' {
            let serialized = json_parse_call(json);
            if serialized.as_str().as_bytes().len() < MAX_JSON_STR_LEN {
                return serialized;
            }
        }
    }
    String::from_str(json)
}

proof fn lemma_escape_first(s: Seq<char>)
    requires
        s.len() > 0,
    ensures
        escape_single_quoted(s) == escape_char(s[0]) + escape_single_quoted(s.drop_first()),
    decreases s.len(),
{
    if s.len() == 1 {
        assert(escape_single_quoted(s.drop_last()) == Seq::<char>::empty());
        assert(escape_single_quoted(s.drop_first()) == Seq::<char>::empty());
        assert(s.last() == s[0]);
        assert(escape_char(s[0]) + Seq::<char>::empty() =~= escape_char(s[0]));
        assert(Seq::<char>::empty() + escape_char(s.last()) =~= escape_char(s.last()));
    } else {
        lemma_escape_first(s.drop_last());
        assert(s.drop_last().drop_first() =~= s.drop_first().drop_last());
        assert(s.drop_first().last() == s.last());
        assert(s.drop_last()[0] == s[0]);
        assert(escape_char(s[0]) + escape_single_quoted(s.drop_first().drop_last()) + escape_char(s.last())
            =~= escape_char(s[0]) + (escape_single_quoted(s.drop_first().drop_last()) + escape_char(s.last())));
    }
}

proof fn lemma_unescape_char(c: char, t: Seq<char>)
    ensures
        unescape_single_quoted(escape_char(c) + t) == seq![c] + unescape_single_quoted(t),
{
    let s = escape_char(c) + t;
    if c == '\\' || c == '\'' {
        assert(s[0] == '\\' && s[1] == c);
        assert(s.subrange(2, s.len() as int) =~= t);
    } else {
        assert(s[0] == c);
        assert(s.drop_first() =~= t);
    }
}

/// Reading back the string literal inside `JSON.parse('...')` gives the JSON
/// text that went in, so the large-value form denotes the same value as the
/// literal form.
pub proof fn lemma_json_parse_round_trip(json: Seq<char>)
    ensures
        unescape_single_quoted(escape_single_quoted(json)) == json,
    decreases json.len(),
{
    if json.len() > 0 {
        lemma_escape_first(json);
        lemma_unescape_char(json[0], escape_single_quoted(json.drop_first()));
        lemma_json_parse_round_trip(json.drop_first());
        assert(seq![json[0]] + json.drop_first() =~= json);
    }
}

/// The script that settles the pending call whose continuation is `handle`
/// with the value that `json` denotes.
pub open spec fn callback_script(handle: nat, json: Seq<char>) -> Seq<char> {
    "window.ipcHandler._dispatchResolver("@ + decimal(handle) + ", "@ + embedded(json) + ");"@
}

/// The script that hands a channel protocol message, `json`, to the web view.
pub open spec fn channel_script(json: Seq<char>) -> Seq<char> {
    "window.ipcHandler._respondChannelMessage("@ + embedded(json) + ");"@
}

/// Builds the script that settles the continuation `handle` with `json`.
pub fn format_callback(handle: usize, json: &str) -> (r: String)
    ensures
        r@ == callback_script(handle as nat, json@),
{
    let mut out = String::from_str("window.ipcHandler._dispatchResolver(");
    push_decimal(&mut out, handle as u64);
    out.append(", ");
    let arg = embed_json(json);
    out.append(arg.as_str());
    out.append(");");
    out
}

/// Builds the script that hands the channel message `json` to the web view.
pub fn format_channel_message(json: &str) -> (r: String)
    ensures
        r@ == channel_script(json@),
{
    let mut out = String::from_str("window.ipcHandler._respondChannelMessage(");
    let arg = embed_json(json);
    out.append(arg.as_str());
    out.append(");");
    out
}

/// A script that settles one handle never settles another: the scripts for
/// two different handles differ, whatever values they carry.
pub proof fn lemma_scripts_name_one_handle(a: nat, b: nat, x: Seq<char>, y: Seq<char>)
    requires
        a != b,
    ensures
        callback_script(a, x) != callback_script(b, y),
{
    let p = "window.ipcHandler._dispatchResolver("@;
    let sep = ", "@;
    let da = decimal(a);
    let db = decimal(b);
    let sa = callback_script(a, x);
    let sb = callback_script(b, y);
    reveal_strlit(", ");
    lemma_decimal_no_comma(a);
    lemma_decimal_no_comma(b);
    if sa == sb {
        assert(sa =~= p + (da + (sep + (embedded(x) + ");"@))));
        assert(sb =~= p + (db + (sep + (embedded(y) + ");"@))));
        if da.len() < db.len() {
            assert(sa[(p.len() + da.len()) as int] == ',');
            assert(sb[(p.len() + da.len()) as int] == db[da.len() as int]);
        } else if db.len() < da.len() {
            assert(sb[(p.len() + db.len()) as int] == ',');
            assert(sa[(p.len() + db.len()) as int] == da[db.len() as int]);
        } else {
            assert forall|i: int| 0 <= i < da.len() implies da[i] == db[i] by {
                assert(sa[p.len() as int + i] == da[i]);
                assert(sb[p.len() as int + i] == db[i]);
            }
            assert(da =~= db);
            lemma_decimal_injective(a, b);
        }
    }
}

} // verus!
