use vstd::prelude::*;

use crate::error::BotError;
use crate::frame::{frame_of, prepend_header};

verus! {

/// Lower-case hexadecimal digit of `d`, a value in `0..16`.
pub open spec fn hex_digit(d: int) -> char {
    seq!['0', '1', '2', '3', '4', '5', '6', '7', '8', '9', 'a', 'b', 'c', 'd', 'e', 'f'][d]
}

/// How one character is written inside a JSON string: `"` and `\` and the
/// control characters below U+0020 are escaped (`\b`, `\t`, `\n`, `\f`,
/// `\r`, else `\u00XX`); every other character stands as it is.
pub open spec fn json_escape_char(c: char) -> Seq<char> {
    let u = c as u32;
    if c == '"' {
        seq!['\\', '"']
    } else if c == '\\' {
        seq!['\\', '\\']
    } else if u == 8 {
        seq!['\\', 'b']
    } else if u == 9 {
        seq!['\\', 't']
    } else if u == 10 {
        seq!['\\', 'n']
    } else if u == 12 {
        seq!['\\', 'f']
    } else if u == 13 {
        seq!['\\', 'r']
    } else if u < 32 {
        seq!['\\', 'u', '0', '0', hex_digit(u as int / 16), hex_digit(u as int % 16)]
    } else {
        seq![c]
    }
}

/// The escaped characters of a text.
pub open spec fn json_escape(s: Seq<char>) -> Seq<char>
    decreases s.len(),
{
    if s.len() == 0 {
        Seq::empty()
    } else {
        json_escape(s.drop_last()) + json_escape_char(s.last())
    }
}

/// The compact JSON string literal of a text: quotes around its escaped
/// characters.
pub open spec fn json_string(s: Seq<char>) -> Seq<char> {
    seq!['"'] + json_escape(s) + seq!['"']
}

/// The Unicode upper-case form of a text.
pub uninterp spec fn upper_of(s: Seq<char>) -> Seq<char>;

/// Relies on serde_json's `Display` for `Value::String`: it writes the text as
/// a compact JSON string literal, escaping through its `ESCAPE` table and
/// `write_char_escape`.
#[verifier::external_body]
fn json_quote(s: &str) -> (r: String)
    ensures
        r@ == json_string(s@),
{
    serde_json::Value::String(s.to_string()).to_string()
}

/// Relies on `str::to_uppercase`: the upper-case form of the text.
#[verifier::external_body]
fn uppercase(s: &str) -> (r: String)
    ensures
        r@ == upper_of(s@),
{
    s.to_uppercase()
}

/// The arguments as JSON strings, separated by commas.
pub open spec fn json_args(args: Seq<Seq<char>>) -> Seq<char>
    decreases args.len(),
{
    if args.len() == 0 {
        Seq::empty()
    } else if args.len() == 1 {
        json_string(args[0])
    } else {
        json_args(args.drop_last()) + seq![','] + json_string(args.last())
    }
}

/// The payload of a call: `{"m":<function>,"p":[<arguments>]}`.
pub open spec fn payload_of(func: Seq<char>, args: Seq<Seq<char>>) -> Seq<char> {
    "{\"m\":"@ + json_string(func) + ",\"p\":["@ + json_args(args) + "]}"@
}

pub open spec fn views_of(v: Seq<String>) -> Seq<Seq<char>> {
    v.map_values(|s: String| s@)
}

/// The JSON payload of a call to `func` with string arguments.
pub fn construct_message(func: &str, params: &Vec<String>) -> (r: String)
    ensures
        r@ == payload_of(func@, views_of(params@)),
{
    let mut s = String::from_str("{\"m\":");
    let f = json_quote(func);
    s.append(f.as_str());
    s.append(",\"p\":[");
    let ghost head = s@;
    let mut i: usize = 0;
    while i < params.len()
        invariant
            i <= params@.len(),
            s@ == head + json_args(views_of(params@.subrange(0, i as int))),
        decreases params@.len() - i,
    {
        if i > 0 {
            s.append(",");
            proof {
                reveal_strlit(",");
            }
        }
        let q = json_quote(params[i].as_str());
        s.append(q.as_str());
        proof {
            let a = views_of(params@.subrange(0, i + 1));
            assert(a.drop_last() =~= views_of(params@.subrange(0, i as int)));
            assert(a.last() == params@[i as int]@);
            if i == 0 {
                assert(views_of(params@.subrange(0, 0)) =~= Seq::<Seq<char>>::empty());
            }
        }
        i = i + 1;
    }
    s.append("]}");
    assert(params@.subrange(0, params@.len() as int) =~= params@);
    assert(s@ =~= payload_of(func@, views_of(params@)));
    s
}

/// The framed message for a call to `func` with string arguments.
pub fn create_message(func: &str, params: &Vec<String>) -> (r: String)
    ensures
        r@ == frame_of(payload_of(func@, views_of(params@))),
{
    let content = construct_message(func, params);
    prepend_header(content.as_str())
}

/// The three setup messages of a quote session, in the order they are sent:
/// create the session, set its fields (last price, volume, change, change
/// percent), and add the symbol.
pub fn handshake_messages(session: &str, symbol_id: &str) -> (r: Vec<String>)
    ensures
        r@.len() == 3,
        r@[0]@ == frame_of(payload_of("quote_create_session"@, seq![session@])),
        r@[1]@ == frame_of(
            payload_of("quote_set_fields"@, seq![session@, "lp"@, "volume"@, "ch"@, "chp"@]),
        ),
        r@[2]@ == frame_of(payload_of("quote_add_symbols"@, seq![session@, symbol_id@])),
{
    let mut out: Vec<String> = Vec::new();
    let mut create: Vec<String> = Vec::new();
    create.push(String::from_str(session));
    assert(views_of(create@) =~= seq![session@]);
    out.push(create_message("quote_create_session", &create));

    let mut fields: Vec<String> = Vec::new();
    fields.push(String::from_str(session));
    fields.push(String::from_str("lp"));
    fields.push(String::from_str("volume"));
    fields.push(String::from_str("ch"));
    fields.push(String::from_str("chp"));
    assert(views_of(fields@) =~= seq![session@, "lp"@, "volume"@, "ch"@, "chp"@]);
    out.push(create_message("quote_set_fields", &fields));

    let mut add: Vec<String> = Vec::new();
    add.push(String::from_str(session));
    add.push(String::from_str(symbol_id));
    assert(views_of(add@) =~= seq![session@, symbol_id@]);
    out.push(create_message("quote_add_symbols", &add));
    out
}

/// `<BROKER>:<SYMBOL>`, both parts upper-cased.
pub open spec fn symbol_id_text(broker: Seq<char>, symbol: Seq<char>) -> Seq<char> {
    upper_of(broker) + seq![':'] + upper_of(symbol)
}

/// The symbol identifier of a lookup record: its `prefix`, or else its
/// `exchange`, then its `symbol`. A record without a symbol, or with neither
/// prefix nor exchange, cannot be resolved.
pub fn symbol_id_of(symbol: Option<&str>, prefix: Option<&str>, exchange: Option<&str>) -> (r:
    Result<String, BotError>)
    ensures
        symbol is None || (prefix is None && exchange is None) <==> r is Err,
        r is Err ==> r == Err::<String, BotError>(BotError::SymbolResolutionFailure),
        r matches Ok(s) ==> s@ == symbol_id_text(
            match prefix {
                Some(p) => p@,
                None => exchange->Some_0@,
            },
            symbol->Some_0@,
        ),
{
    let sym = match symbol {
        Some(s) => s,
        None => return Err(BotError::SymbolResolutionFailure),
    };
    let broker = match prefix {
        Some(p) => p,
        None => match exchange {
            Some(e) => e,
            None => return Err(BotError::SymbolResolutionFailure),
        },
    };
    let mut s = uppercase(broker);
    s.append(":");
    let u = uppercase(sym);
    s.append(u.as_str());
    proof {
        reveal_strlit(":");
    }
    assert(s@ =~= symbol_id_text(broker@, sym@));
    Ok(s)
}

} // verus!
