//! The configuration model: declared links, keyword expansion, and the
//! verified parser for the `<kind> = <from> <to>` line syntax. Reading the
//! configuration file and checking that the declared paths exist are left to
//! the unverified shell; the grammar itself is decided here.

use vstd::prelude::*;
use vstd::string::StrSliceExecFns;
use crate::text;

verus! {

/// One declared link: `to` should become a symlink pointing at `from`.
#[derive(Clone, Debug, PartialEq)]
pub struct Link {
    pub from: String,
    pub to: String,
}

/// The parsed configuration: the declared links, in declaration order.
#[derive(Clone, Debug)]
pub struct Config {
    pub links: Vec<Link>,
}

/// The values the configuration keywords expand to: `!here` the invocation
/// directory, `!home` the home directory, `!xdg_conf` the configuration base
/// directory.
#[derive(Clone, Debug)]
pub struct Keywords {
    pub here: String,
    pub home: String,
    pub xdg_conf: String,
}

/// Keyword expansion of one path token: a token that uses `!` without any
/// known keyword is rejected; otherwise each keyword is replaced by its
/// value, `!here` first, then `!home`, then `!xdg_conf`.
pub open spec fn spec_expand(
    s: Seq<char>,
    here: Seq<char>,
    home: Seq<char>,
    xdg: Seq<char>,
) -> Result<Seq<char>, Seq<char>> {
    if s.contains('!') && !text::spec_contains(s, "!here"@) && !text::spec_contains(s, "!home"@)
        && !text::spec_contains(s, "!xdg_conf"@) {
        Err("Invalid keyword in "@ + s)
    } else {
        Ok(
            text::spec_replace(
                text::spec_replace(text::spec_replace(s, "!here"@, here), "!home"@, home),
                "!xdg_conf"@,
                xdg,
            ),
        )
    }
}

/// Expands the configuration keywords in one path token.
pub fn expand_keywords(s: &str, kw: &Keywords) -> (r: Result<String, String>)
    ensures
        match r {
            Ok(e) => spec_expand(s@, kw.here@, kw.home@, kw.xdg_conf@) == Ok::<Seq<char>, Seq<char>>(
                e@,
            ),
            Err(m) => spec_expand(s@, kw.here@, kw.home@, kw.xdg_conf@) == Err::<
                Seq<char>,
                Seq<char>,
            >(m@),
        },
{
    proof {
        reveal_strlit("!here");
        reveal_strlit("!home");
        reveal_strlit("!xdg_conf");
    }
    let has_bang = text::find_char(s, '!').is_some();
    proof {
        if has_bang {
            assert(s@.contains('!'));
        }
    }
    if has_bang && !text::contains_substr(s, "!here") && !text::contains_substr(s, "!home")
        && !text::contains_substr(s, "!xdg_conf") {
        Err(text::str_concat("Invalid keyword in ", s))
    } else {
        proof {
            if !has_bang {
                if s@.contains('!') {
                    let i = choose|i: int| 0 <= i < s@.len() && s@[i] == '!';
                    assert(s@[i] == '!');
                }
            }
        }
        let e1 = text::replace_all(s, "!here", kw.here.as_str());
        let e2 = text::replace_all(e1.as_str(), "!home", kw.home.as_str());
        let e3 = text::replace_all(e2.as_str(), "!xdg_conf", kw.xdg_conf.as_str());
        Ok(e3)
    }
}

/// The message for a line with no `=`.
pub open spec fn msg_invalid_syntax(idx: nat) -> Seq<char> {
    "Invalid syntax on line "@ + text::spec_dec(idx)
}

/// The message for a line whose parameter part has the wrong number of values.
pub open spec fn msg_invalid_count(idx: nat, n: nat) -> Seq<char> {
    "Invalid number of values on line "@ + text::spec_dec(idx)
        + ". The supported syntax is '<kind> = <from> <to>'. Found "@ + text::spec_dec(n)
        + " args"@
}

/// The message for a line whose kind is not `link`.
pub open spec fn msg_invalid_kind(idx: nat) -> Seq<char> {
    "Invalid path syntax on line "@ + text::spec_dec(idx)
        + ". The supported syntax is '<kind> = <from> <to>'"@
}

/// The message for a parameter part that two tokens cannot be read from.
pub open spec fn msg_unknown(idx: nat) -> Seq<char> {
    "Unknown error encountered while parsing line "@ + text::spec_dec(idx)
}

/// An inner error message with the line number attached.
pub open spec fn msg_on_line(e: Seq<char>, idx: nat) -> Seq<char> {
    e + " on line "@ + text::spec_dec(idx)
}

/// The parse of one configuration line `kind = from to`: the part before the
/// first `=` must read `link` once trimmed; the part after it, trimmed, must
/// hold exactly two tokens separated by spaces or tabs; both tokens then go
/// through keyword expansion.
pub open spec fn spec_parse_line(
    line: Seq<char>,
    idx: nat,
    here: Seq<char>,
    home: Seq<char>,
    xdg: Seq<char>,
) -> Result<(Seq<char>, Seq<char>), Seq<char>> {
    let i = text::idx_first(line, '=');
    if i == line.len() {
        Err(msg_invalid_syntax(idx))
    } else {
        let kind = line.take(i);
        let params = text::spec_trim(line.skip(i + 1));
        if params.len() == 0 {
            Err(msg_invalid_count(idx, 0))
        } else if text::spec_count_tokens(params) != 2 {
            Err(msg_invalid_count(idx, text::spec_count_tokens(params)))
        } else if text::spec_trim(kind) != "link"@ {
            Err(msg_invalid_kind(idx))
        } else {
            match text::spec_two_tokens(params) {
                None => Err(msg_unknown(idx)),
                Some(ft) => match spec_expand(ft.0, here, home, xdg) {
                    Err(e) => Err(msg_on_line(e, idx)),
                    Ok(fe) => match spec_expand(ft.1, here, home, xdg) {
                        Err(e) => Err(msg_on_line(e, idx)),
                        Ok(te) => Ok((fe, te)),
                    },
                },
            }
        }
    }
}

/// Parses one configuration line into a declared link. `idx` is the
/// zero-based line number used in error messages.
pub fn parse_line(line: &str, idx: usize, kw: &Keywords) -> (r: Result<Link, String>)
    ensures
        match r {
            Ok(l) => spec_parse_line(line@, idx as nat, kw.here@, kw.home@, kw.xdg_conf@) == Ok::<
                (Seq<char>, Seq<char>),
                Seq<char>,
            >((l.from@, l.to@)),
            Err(m) => spec_parse_line(line@, idx as nat, kw.here@, kw.home@, kw.xdg_conf@) == Err::<
                (Seq<char>, Seq<char>),
                Seq<char>,
            >(m@),
        },
{
    let n = line.unicode_len();
    let idx_dec = text::u64_to_dec(idx as u64);
    let eq_pos = match text::find_char(line, '=') {
        None => {
            proof {
                text::lemma_idx_first(line@, '=');
                if text::idx_first(line@, '=') < line@.len() {
                    assert(line@[text::idx_first(line@, '=')] == '=');
                }
            }
            return Err(text::str_concat("Invalid syntax on line ", idx_dec.as_str()));
        },
        Some(i) => i,
    };
    proof {
        text::lemma_idx_first(line@, '=');
        if text::idx_first(line@, '=') < eq_pos {
            assert(line@[text::idx_first(line@, '=')] == '=');
        }
        assert(text::idx_first(line@, '=') == eq_pos);
    }
    let kind = line.substring_char(0, eq_pos);
    let rest = line.substring_char(eq_pos + 1, n);
    proof {
        assert(kind@ =~= line@.take(eq_pos as int));
        assert(rest@ =~= line@.skip(eq_pos as int + 1));
    }
    let params_s = text::trim_str(rest);
    let params = params_s.as_str();
    if params.unicode_len() == 0 {
        let zero = text::u64_to_dec(0);
        let mut m = text::str_concat("Invalid number of values on line ", idx_dec.as_str());
        m.append(". The supported syntax is '<kind> = <from> <to>'. Found ");
        m.append(zero.as_str());
        m.append(" args");
        return Err(m);
    }
    let cnt = text::count_tokens(params);
    if cnt != 2 {
        let cnt_dec = text::u64_to_dec(cnt as u64);
        let mut m = text::str_concat("Invalid number of values on line ", idx_dec.as_str());
        m.append(". The supported syntax is '<kind> = <from> <to>'. Found ");
        m.append(cnt_dec.as_str());
        m.append(" args");
        return Err(m);
    }
    let kind_trimmed = text::trim_str(kind);
    if !text::str_eq(kind_trimmed.as_str(), "link") {
        let mut m = text::str_concat("Invalid path syntax on line ", idx_dec.as_str());
        m.append(". The supported syntax is '<kind> = <from> <to>'");
        return Err(m);
    }
    match text::split_two_tokens(params) {
        None => Err(
            text::str_concat("Unknown error encountered while parsing line ", idx_dec.as_str()),
        ),
        Some(pair) => {
            let (ftok, ttok) = pair;
            match expand_keywords(ftok.as_str(), kw) {
                Err(e) => {
                    let mut m = e;
                    m.append(" on line ");
                    m.append(idx_dec.as_str());
                    Err(m)
                },
                Ok(fe) => {
                    match expand_keywords(ttok.as_str(), kw) {
                        Err(e) => {
                            let mut m = e;
                            m.append(" on line ");
                            m.append(idx_dec.as_str());
                            Err(m)
                        },
                        Ok(te) => Ok(Link { from: fe, to: te }),
                    }
                },
            }
        },
    }
}

} // verus!
