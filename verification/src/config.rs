//! Application configuration: the typed settings and the pure half of
//! loading them — applying defaults, parsing the port number, splitting the
//! comma-separated CORS origin list. Reading the environment itself is the
//! embedding program's job; it hands the raw variables in as options.

use vstd::prelude::*;

use crate::text::{trim_spec, trim_str};

verus! {

/// Typed application settings.
#[derive(Debug)]
pub struct Config {
    pub database_url: String,
    pub session_secret: String,
    pub cors_allowed_origins: Vec<String>,
    pub port: u16,
    pub host: String,
}

/// The port used when none is configured.
pub fn default_port() -> (r: u16)
    ensures
        r == 3000,
{
    3000
}

/// The host used when none is configured.
pub fn default_host() -> (r: String)
    ensures
        r@ == "127.0.0.1"@,
{
    String::from_str("127.0.0.1")
}

/// A decimal digit.
pub open spec fn is_digit_char(c: char) -> bool {
    '0' <= c && c <= '9'
}

/// The numeric value of a digit character.
pub open spec fn digit_val(c: char) -> int {
    (c as u32) - ('0' as u32)
}

/// The number a digit string denotes.
pub open spec fn dec_value(s: Seq<char>) -> int
    decreases s.len(),
{
    if s.len() == 0 {
        0
    } else {
        dec_value(s.drop_last()) * 10 + digit_val(s.last())
    }
}

/// The digits of a number literal: everything after an optional leading `+`.
pub open spec fn digits_part(s: Seq<char>) -> Seq<char> {
    if s.len() > 0 && s[0] == '+' {
        s.drop_first()
    } else {
        s
    }
}

/// What parsing a `u16` accepts: an optional `+`, then one or more digits,
/// denoting a number that fits.
pub open spec fn parseable_u16(s: Seq<char>) -> bool {
    let t = digits_part(s);
    &&& t.len() > 0
    &&& forall|i: int| 0 <= i < t.len() ==> is_digit_char(t[i])
    &&& dec_value(t) <= u16::MAX
}

proof fn lemma_dec_value_nonneg(s: Seq<char>)
    requires
        forall|i: int| 0 <= i < s.len() ==> is_digit_char(s[i]),
    ensures
        0 <= dec_value(s),
    decreases s.len(),
{
    if s.len() > 0 {
        lemma_dec_value_nonneg(s.drop_last());
    }
}

proof fn lemma_dec_value_prefix_le(s: Seq<char>, k: int)
    requires
        forall|i: int| 0 <= i < s.len() ==> is_digit_char(s[i]),
        0 <= k <= s.len(),
    ensures
        dec_value(s.take(k)) <= dec_value(s),
    decreases s.len() - k,
{
    if k < s.len() {
        assert(s.take(k + 1).drop_last() =~= s.take(k));
        assert(forall|i: int| 0 <= i < s.take(k).len() ==> is_digit_char(s.take(k)[i]));
        lemma_dec_value_nonneg(s.take(k));
        lemma_dec_value_prefix_le(s, k + 1);
    } else {
        assert(s.take(k) =~= s);
    }
}

/// Parses a `u16` as the standard library's parser would: an optional `+`,
/// then one or more digits, rejecting overflow.
pub fn parse_u16(s: &str) -> (r: Option<u16>)
    ensures
        r is Some <==> parseable_u16(s@),
        r matches Some(v) ==> v as int == dec_value(digits_part(s@)),
{
    let n = s.unicode_len();
    let start: usize = if n > 0 && s.get_char(0) == '+' {
        1
    } else {
        0
    };
    let ghost t = digits_part(s@);
    proof {
        assert(t =~= s@.subrange(start as int, n as int));
    }
    if start >= n {
        return None;
    }
    let mut acc: u32 = 0;
    let mut i = start;
    while i < n
        invariant
            start <= i <= n,
            n == s@.len(),
            start <= 1,
            t == digits_part(s@),
            t =~= s@.subrange(start as int, n as int),
            forall|j: int| 0 <= j < i - start ==> is_digit_char(t[j]),
            acc as int == dec_value(t.take(i - start)),
            acc <= 65535,
        decreases n - i,
    {
        let c = s.get_char(i);
        if !('0' <= c && c <= '9') {
            proof {
                assert(t[i - start] == s@[i as int]);
            }
            return None;
        }
        let d: u32 = (c as u32) - 48;
        let next: u32 = acc * 10 + d;
        proof {
            assert(t.take(i - start + 1).drop_last() =~= t.take(i - start));
            assert(t.take(i - start + 1).last() == t[i - start]);
        }
        if next > 65535 {
            proof {
                if parseable_u16(s@) {
                    lemma_dec_value_prefix_le(t, i - start + 1);
                }
            }
            return None;
        }
        acc = next;
        i = i + 1;
    }
    proof {
        assert(t.take(n - start) =~= t);
    }
    Some(acc as u16)
}

/// The pieces of the text between its commas, in order; no comma leaves one
/// piece, and every comma separates two (possibly empty) pieces.
pub open spec fn split_commas(s: Seq<char>) -> Seq<Seq<char>>
    decreases s.len(),
{
    if s.len() == 0 {
        seq![s]
    } else if s[0] == ',' {
        seq![Seq::<char>::empty()] + split_commas(s.drop_first())
    } else {
        let rest = split_commas(s.drop_first());
        seq![seq![s[0]] + rest[0]] + rest.drop_first()
    }
}

/// Each piece trimmed, the empty ones dropped.
pub open spec fn trim_nonempty(ts: Seq<Seq<char>>) -> Seq<Seq<char>>
    decreases ts.len(),
{
    if ts.len() == 0 {
        Seq::empty()
    } else {
        let rest = trim_nonempty(ts.drop_first());
        let h = trim_spec(ts[0]);
        if h.len() > 0 {
            seq![h] + rest
        } else {
            rest
        }
    }
}

/// What a comma-separated origin list means: the pieces between commas,
/// trimmed, the empty ones dropped.
pub open spec fn cors_origins(s: Seq<char>) -> Seq<Seq<char>> {
    trim_nonempty(split_commas(s))
}

/// The texts of a list of strings.
pub open spec fn str_views(v: Seq<String>) -> Seq<Seq<char>> {
    v.map_values(|x: String| x@)
}

proof fn lemma_trim_nonempty_singleton(x: Seq<char>)
    ensures
        trim_nonempty(seq![x]) =~= if trim_spec(x).len() > 0 {
            seq![trim_spec(x)]
        } else {
            Seq::<Seq<char>>::empty()
        },
{
    assert(seq![x].drop_first() =~= Seq::<Seq<char>>::empty());
    assert(trim_nonempty(Seq::<Seq<char>>::empty()) =~= Seq::<Seq<char>>::empty());
    assert(seq![x][0] == x);
}

proof fn lemma_split_commas_len(s: Seq<char>)
    ensures
        split_commas(s).len() >= 1,
    decreases s.len(),
{
    if s.len() > 0 {
        lemma_split_commas_len(s.drop_first());
    }
}

proof fn lemma_trim_nonempty_add(a: Seq<Seq<char>>, b: Seq<Seq<char>>)
    ensures
        trim_nonempty(a + b) =~= trim_nonempty(a) + trim_nonempty(b),
    decreases a.len(),
{
    if a.len() == 0 {
        assert(a + b =~= b);
    } else {
        assert((a + b).drop_first() =~= a.drop_first() + b);
        assert((a + b)[0] == a[0]);
        lemma_trim_nonempty_add(a.drop_first(), b);
    }
}

proof fn lemma_split_prefix(s: Seq<char>, j: int)
    requires
        0 <= j <= s.len(),
        forall|k: int| 0 <= k < j ==> s[k] != ',',
    ensures
        j == s.len() ==> split_commas(s) =~= seq![s],
        j < s.len() && s[j] == ',' ==> split_commas(s) =~= seq![s.subrange(0, j)] + split_commas(
            s.subrange(j + 1, s.len() as int),
        ),
    decreases s.len(),
{
    if s.len() == 0 {
    } else if j == 0 {
        if s[j] == ',' {
            assert(s.subrange(0, 0) =~= Seq::<char>::empty());
            assert(s.subrange(1, s.len() as int) =~= s.drop_first());
        }
    } else {
        let d = s.drop_first();
        lemma_split_commas_len(d);
        lemma_split_prefix(d, j - 1);
        if j == s.len() {
            assert(split_commas(d) =~= seq![d]);
            assert(seq![s[0]] + d =~= s);
            assert(split_commas(s) =~= seq![s]);
        } else if s[j] == ',' {
            assert(d[j - 1] == s[j]);
            assert(split_commas(d) =~= seq![d.subrange(0, j - 1)] + split_commas(
                d.subrange(j, d.len() as int),
            ));
            assert(seq![s[0]] + d.subrange(0, j - 1) =~= s.subrange(0, j));
            assert(d.subrange(j, d.len() as int) =~= s.subrange(j + 1, s.len() as int));
            lemma_split_commas_len(d.subrange(j, d.len() as int));
            assert(split_commas(s) =~= seq![s.subrange(0, j)] + split_commas(
                s.subrange(j + 1, s.len() as int),
            ));
        }
    }
}

/// Splits a comma-separated origin list: each piece trimmed, empty pieces
/// dropped.
pub fn split_cors_origins(s: &str) -> (r: Vec<String>)
    ensures
        str_views(r@) == cors_origins(s@),
{
    let n = s.unicode_len();
    let mut result: Vec<String> = Vec::new();
    let mut i: usize = 0;
    proof {
        assert(s@.subrange(0, n as int) =~= s@);
        assert(str_views(result@) =~= Seq::<Seq<char>>::empty());
    }
    loop
        invariant_except_break
            0 <= i <= n,
            n == s@.len(),
            cors_origins(s@) =~= str_views(result@) + trim_nonempty(
                split_commas(s@.subrange(i as int, n as int)),
            ),
        ensures
            str_views(result@) =~= cors_origins(s@),
        decreases n - i,
    {
        let mut j = i;
        while j < n && s.get_char(j) != ','
            invariant
                i <= j <= n,
                n == s@.len(),
                forall|k: int| i <= k < j ==> s@[k] != ',',
            decreases n - j,
        {
            j = j + 1;
        }
        let piece = s.substring_char(i, j);
        let trimmed = trim_str(piece);
        let ghost rest = s@.subrange(i as int, n as int);
        proof {
            assert(forall|k: int| 0 <= k < j - i ==> rest[k] != ',');
            lemma_split_prefix(rest, j - i);
            assert(piece@ =~= rest.subrange(0, j - i));
        }
        let keep = !trimmed.as_str().is_empty();
        if keep {
            result.push(trimmed);
        }
        if j == n {
            proof {
                assert(rest.subrange(0, j - i) =~= rest);
                assert(split_commas(rest) =~= seq![rest]);
                lemma_trim_nonempty_singleton(rest);
                if keep {
                    assert(str_views(result@) =~= str_views(result@.drop_last()).push(
                        trim_spec(rest),
                    ));
                }
                assert(str_views(result@) =~= cors_origins(s@));
            }
            break;
        }
        proof {
            let head = rest.subrange(0, j - i);
            let tail = s@.subrange(j + 1, n as int);
            assert(rest.subrange(j - i + 1, rest.len() as int) =~= tail);
            assert(split_commas(rest) =~= seq![head] + split_commas(tail));
            lemma_trim_nonempty_add(seq![head], split_commas(tail));
            lemma_trim_nonempty_singleton(head);
            if keep {
                assert(str_views(result@) =~= str_views(result@.drop_last()).push(
                    trim_spec(head),
                ));
            }
            assert(cors_origins(s@) =~= str_views(result@) + trim_nonempty(
                split_commas(s@.subrange(j + 1, n as int)),
            ));
        }
        i = j + 1;
    }
    result
}

impl Config {
    /// Assembles a configuration from its parts, with the default port and
    /// host.
    pub fn new(database_url: String, session_secret: String, cors_allowed_origins: Vec<String>) -> (r:
        Config)
        ensures
            r.database_url == database_url,
            r.session_secret == session_secret,
            r.cors_allowed_origins == cors_allowed_origins,
            r.port == 3000,
            r.host@ == "127.0.0.1"@,
    {
        Config {
            database_url,
            session_secret,
            cors_allowed_origins,
            port: default_port(),
            host: default_host(),
        }
    }

    /// Assembles the configuration from the raw environment values, applying
    /// the documented defaults: host `127.0.0.1`, port `3000` (also on an
    /// unparseable port), a local SQLite file, the built-in development
    /// session secret, and the local development CORS origin.
    pub fn from_env_values(
        host: Option<String>,
        port: Option<String>,
        database_url: Option<String>,
        session_secret: Option<String>,
        cors: Option<String>,
    ) -> (r: Config)
        ensures
            r.host@ == match host {
                Some(h) => h@,
                None => "127.0.0.1"@,
            },
            r.port as int == match port {
                Some(p) => if parseable_u16(p@) {
                    dec_value(digits_part(p@))
                } else {
                    3000
                },
                None => 3000,
            },
            r.database_url@ == match database_url {
                Some(d) => d@,
                None => "sqlite:data.db?mode=rwc"@,
            },
            r.session_secret@ == match session_secret {
                Some(x) => x@,
                None => "k-notes-super-secret-key-must-be-at-least-64-bytes-long!!!!"@,
            },
            str_views(r.cors_allowed_origins@) == cors_origins(
                match cors {
                    Some(c) => c@,
                    None => "http://localhost:5173"@,
                },
            ),
    {
        let host = match host {
            Some(h) => h,
            None => default_host(),
        };
        let port = match port {
            Some(p) => match parse_u16(p.as_str()) {
                Some(v) => v,
                None => default_port(),
            },
            None => default_port(),
        };
        let database_url = match database_url {
            Some(d) => d,
            None => String::from_str("sqlite:data.db?mode=rwc"),
        };
        let session_secret = match session_secret {
            Some(x) => x,
            None => String::from_str(
                "k-notes-super-secret-key-must-be-at-least-64-bytes-long!!!!",
            ),
        };
        let cors_allowed_origins = match cors {
            Some(c) => split_cors_origins(c.as_str()),
            None => split_cors_origins("http://localhost:5173"),
        };
        Config { database_url, session_secret, cors_allowed_origins, port, host }
    }
}

} // verus!
