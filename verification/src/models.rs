//! Shared constants of the BLE service, and the pairing URL the client
//! shows as a QR code: `tapauth://pair?v=1&pk=<hex>&p=<port>[&ip4=..][&ip6=..]`.
//!
//! Addresses travel in their textual form; turning them into address
//! values is left to the caller, which owns the network types.
use crate::daemon::peer::{all_digits, digit_value, digits_value, spec_parse_u64};
use crate::address_text::{is_ipv4_text, is_ipv6_text, spec_ipv4_text, spec_ipv6_text};
use crate::text::{decimal, digit_char, push_decimal};
use vstd::prelude::*;

verus! {

/// UUID of the BLE authentication service.
pub const BLE_SERVICE_UUID: &'static str = "b4ad84c0-2adb-4876-8315-b39d983b2bde";

/// UUID of the characteristic the client writes commands to.
pub const BLE_CLIENT_COMMAND_CHAR_UUID: &'static str = "caf54438-9d78-4697-8886-0a4cfa87ba8d";

/// UUID of the characteristic the server answers on.
pub const BLE_SERVER_RESPONSE_CHAR_UUID: &'static str = "ca6238be-c194-49b7-855b-58f41d3da626";

/// The prefix of every pairing URL.
pub const PAIRING_URL_PREFIX: &'static str = "tapauth://pair?";

/// The pairing URL for a public key, a port and optional addresses (in
/// their textual forms).
pub open spec fn spec_pairing_url(
    public_key_hex: Seq<char>,
    port: u16,
    ipv4: Option<Seq<char>>,
    ipv6: Option<Seq<char>>,
) -> Seq<char> {
    "tapauth://pair?v=1&pk="@ + public_key_hex + "&p="@ + decimal(port as nat) + match ipv4 {
        Some(ip) => "&ip4="@ + ip,
        None => Seq::empty(),
    } + match ipv6 {
        Some(ip) => "&ip6="@ + ip,
        None => Seq::empty(),
    }
}

/// Builds the pairing URL.
pub fn generate_pairing_url(public_key_hex: &str, port: u16, ipv4: Option<&str>, ipv6: Option<&str>) -> (r: String)
    ensures
        r@ == spec_pairing_url(
            public_key_hex@,
            port,
            match ipv4 {
                Some(ip) => Some(ip@),
                None => None,
            },
            match ipv6 {
                Some(ip) => Some(ip@),
                None => None,
            },
        ),
{
    let mut url = "tapauth://pair?v=1&pk=".to_owned();
    url.append(public_key_hex);
    url.append("&p=");
    push_decimal(&mut url, port as u64);
    let ghost base = url@;
    match ipv4 {
        Some(ip) => {
            url.append("&ip4=");
            url.append(ip);
        },
        None => {},
    }
    let ghost with4 = url@;
    match ipv6 {
        Some(ip) => {
            url.append("&ip6=");
            url.append(ip);
        },
        None => {},
    }
    proof {
        reveal_strlit("tapauth://pair?v=1&pk=");
        reveal_strlit("&p=");
        reveal_strlit("&ip4=");
        reveal_strlit("&ip6=");
        let a = match ipv4 {
            Some(ip) => "&ip4="@ + ip@,
            None => Seq::<char>::empty(),
        };
        let b = match ipv6 {
            Some(ip) => "&ip6="@ + ip@,
            None => Seq::<char>::empty(),
        };
        assert(with4 =~= base + a);
        assert(url@ =~= base + a + b);
    }
    url
}

/// What a pairing URL carries. The addresses are their textual forms.
#[derive(Debug, Clone, PartialEq, Eq)]
pub struct PairingInfo {
    pub version: u32,
    pub public_key_hex: String,
    pub port: u16,
    pub ipv4: Option<String>,
    pub ipv6: Option<String>,
}

/// The pieces of `s` between occurrences of `sep` (as `str::split` yields
/// them: always at least one, possibly empty).
pub open spec fn spec_split(s: Seq<char>, sep: char) -> Seq<Seq<char>>
    decreases s.len(),
{
    if s.len() == 0 {
        seq![Seq::empty()]
    } else {
        let p = spec_split(s.drop_last(), sep);
        if s.last() == sep {
            p.push(Seq::empty())
        } else {
            p.update(p.len() - 1, p.last().push(s.last()))
        }
    }
}

pub(crate) proof fn lemma_split_nonempty(s: Seq<char>, sep: char)
    ensures
        spec_split(s, sep).len() >= 1,
    decreases s.len(),
{
    if s.len() > 0 {
        lemma_split_nonempty(s.drop_last(), sep);
    }
}

/// The values gathered so far while reading a query.
pub struct QueryState {
    pub version: Option<u32>,
    pub public_key_hex: Option<Seq<char>>,
    pub port: Option<u16>,
    pub ipv4: Option<Seq<char>>,
    pub ipv6: Option<Seq<char>>,
}

/// Reads one `key=value` pair into the state; unknown keys are skipped, a
/// pair without `=`, with a bad number or with a malformed address is an
/// error.
pub open spec fn spec_read_pair(st: QueryState, pair: Seq<char>) -> Result<QueryState, Seq<char>> {
    let parts = spec_split(pair, '=');
    if parts.len() < 2 {
        Err("Invalid query"@)
    } else {
        let key = parts[0];
        let value = parts[1];
        if key == "v"@ {
            match spec_parse_u64(value) {
                Some(v) => if v <= u32::MAX {
                    Ok(QueryState { version: Some(v as u32), ..st })
                } else {
                    Err("Invalid version"@)
                },
                None => Err("Invalid version"@),
            }
        } else if key == "pk"@ {
            Ok(QueryState { public_key_hex: Some(value), ..st })
        } else if key == "p"@ {
            match spec_parse_u64(value) {
                Some(v) => if v <= u16::MAX {
                    Ok(QueryState { port: Some(v as u16), ..st })
                } else {
                    Err("Invalid port"@)
                },
                None => Err("Invalid port"@),
            }
        } else if key == "ip4"@ {
            if spec_ipv4_text(value) {
                Ok(QueryState { ipv4: Some(value), ..st })
            } else {
                Err("Invalid IPv4"@)
            }
        } else if key == "ip6"@ {
            if spec_ipv6_text(value) {
                Ok(QueryState { ipv6: Some(value), ..st })
            } else {
                Err("Invalid IPv6"@)
            }
        } else {
            Ok(st)
        }
    }
}

/// Reads the pairs in order; the first error stops.
pub open spec fn spec_read_pairs(pairs: Seq<Seq<char>>) -> Result<QueryState, Seq<char>>
    decreases pairs.len(),
{
    if pairs.len() == 0 {
        Ok(QueryState { version: None, public_key_hex: None, port: None, ipv4: None, ipv6: None })
    } else {
        match spec_read_pairs(pairs.drop_last()) {
            Ok(st) => spec_read_pair(st, pairs.last()),
            Err(e) => Err(e),
        }
    }
}

/// The view of a parsed pairing URL.
pub struct PairingInfoView {
    pub version: u32,
    pub public_key_hex: Seq<char>,
    pub port: u16,
    pub ipv4: Option<Seq<char>>,
    pub ipv6: Option<Seq<char>>,
}

/// What a pairing URL says, or the error message.
pub open spec fn spec_parse_pairing_url(url: Seq<char>) -> Result<PairingInfoView, Seq<char>> {
    if !(url.len() >= 15 && url.take(15) == PAIRING_URL_PREFIX@) {
        Err("Invalid URL scheme"@)
    } else {
        match spec_read_pairs(spec_split(url.skip(15), '&')) {
            Err(e) => Err(e),
            Ok(st) => match st.version {
                None => Err("Missing version"@),
                Some(version) => match st.public_key_hex {
                    None => Err("Missing public key"@),
                    Some(pk) => match st.port {
                        None => Err("Missing port"@),
                        Some(port) => Ok(
                            PairingInfoView { version, public_key_hex: pk, port, ipv4: st.ipv4, ipv6: st.ipv6 },
                        ),
                    },
                },
            },
        }
    }
}

impl PairingInfo {
    /// The view of the parsed URL.
    pub open spec fn info_view(&self) -> PairingInfoView {
        PairingInfoView {
            version: self.version,
            public_key_hex: self.public_key_hex@,
            port: self.port,
            ipv4: match &self.ipv4 {
                Some(s) => Some(s@),
                None => None,
            },
            ipv6: match &self.ipv6 {
                Some(s) => Some(s@),
                None => None,
            },
        }
    }
}

proof fn lemma_split_step(s: Seq<char>, i: int, sep: char)
    requires
        0 <= i < s.len(),
    ensures
        spec_split(s.take(i + 1), sep) == (if s[i] == sep {
            spec_split(s.take(i), sep).push(Seq::empty())
        } else {
            let p = spec_split(s.take(i), sep);
            p.update(p.len() - 1, p.last().push(s[i]))
        }),
{
    assert(s.take(i + 1).drop_last() =~= s.take(i));
}

/// Splits the characters of `s` from index `start` on at each `sep`, as
/// `str::split` does.
pub(crate) fn split_from(s: &str, start: usize, sep: char) -> (r: Vec<String>)
    requires
        start <= s@.len(),
    ensures
        r@.len() == spec_split(s@.skip(start as int), sep).len(),
        forall|k: int| 0 <= k < r@.len() ==> #[trigger] r@[k]@ == spec_split(s@.skip(start as int), sep)[k],
{
    let ghost q = s@.skip(start as int);
    let n = s.unicode_len();
    let mut done: Vec<String> = Vec::new();
    let mut current = String::new();
    let mut i: usize = start;
    while i < n
        invariant
            n == s@.len(),
            start <= i <= n,
            q == s@.skip(start as int),
            done@.len() + 1 == spec_split(q.take(i - start), sep).len(),
            forall|k: int| 0 <= k < done@.len() ==> #[trigger] done@[k]@ == spec_split(q.take(i - start), sep)[k],
            current@ == spec_split(q.take(i - start), sep).last(),
        decreases n - i,
    {
        let c = s.get_char(i);
        proof {
            lemma_split_step(q, i - start, sep);
            lemma_split_nonempty(q.take(i - start), sep);
        }
        if c == sep {
            let mut fresh = String::new();
            std::mem::swap(&mut fresh, &mut current);
            done.push(fresh);
        } else {
            crate::text::push_char(&mut current, c);
        }
        i = i + 1;
    }
    assert(q.take(n - start) =~= q);
    proof {
        lemma_split_nonempty(q, sep);
    }
    done.push(current);
    done
}

/// The state held by the parser's variables.
pub open spec fn state_of(
    version: Option<u32>,
    pk: Option<String>,
    port: Option<u16>,
    ip4: Option<String>,
    ip6: Option<String>,
) -> QueryState {
    QueryState {
        version,
        public_key_hex: match pk {
            Some(s) => Some(s@),
            None => None,
        },
        port,
        ipv4: match ip4 {
            Some(s) => Some(s@),
            None => None,
        },
        ipv6: match ip6 {
            Some(s) => Some(s@),
            None => None,
        },
    }
}

/// Once a prefix of the pairs fails, reading all of them fails the same way.
proof fn lemma_read_pairs_error_stops(pairs: Seq<Seq<char>>, j: int)
    requires
        0 <= j <= pairs.len(),
        spec_read_pairs(pairs.take(j)) is Err,
    ensures
        spec_read_pairs(pairs) == spec_read_pairs(pairs.take(j)),
    decreases pairs.len(),
{
    if j == pairs.len() {
        assert(pairs.take(j) =~= pairs);
    } else {
        assert(pairs.drop_last().take(j) =~= pairs.take(j));
        lemma_read_pairs_error_stops(pairs.drop_last(), j);
    }
}

proof fn lemma_read_pairs_step(pairs: Seq<Seq<char>>, j: int)
    requires
        0 <= j < pairs.len(),
    ensures
        spec_read_pairs(pairs.take(j + 1)) == (match spec_read_pairs(pairs.take(j)) {
            Ok(st) => spec_read_pair(st, pairs[j]),
            Err(e) => Err(e),
        }),
{
    assert(pairs.take(j + 1).drop_last() =~= pairs.take(j));
}

impl PairingInfo {
    /// Parses a pairing URL: the scheme must match; each `&`-separated pair
    /// must hold `=`; `v` and `p` must be numbers that fit; `ip4` and `ip6`
    /// must be textual IPv4 and IPv6 addresses; the last value
    /// of each key wins; unknown keys are skipped; the version, the public
    /// key and the port must be present.
    pub fn parse(url: &str) -> (r: Result<Self, String>)
        ensures
            match spec_parse_pairing_url(url@) {
                Ok(info) => r matches Ok(p) && p.info_view() == info,
                Err(e) => r matches Err(m) && m@ == e,
            },
    {
        proof {
            reveal_strlit("tapauth://pair?");
            reveal_strlit("v");
            reveal_strlit("pk");
            reveal_strlit("p");
            reveal_strlit("ip4");
            reveal_strlit("ip6");
        }
        let prefix = "tapauth://pair?";
        let n = url.unicode_len();
        if n < 15 {
            return Err("Invalid URL scheme".to_owned());
        }
        let mut j: usize = 0;
        while j < 15
            invariant
                n == url@.len(),
                15 <= n,
                j <= 15,
                prefix@ == PAIRING_URL_PREFIX@,
                prefix@.len() == 15,
                forall|t: int| 0 <= t < j ==> url@[t] == prefix@[t],
            decreases 15 - j,
        {
            if url.get_char(j) != prefix.get_char(j) {
                assert(url@.take(15)[j as int] != PAIRING_URL_PREFIX@[j as int]);
                return Err("Invalid URL scheme".to_owned());
            }
            j = j + 1;
        }
        assert(url@.take(15) =~= PAIRING_URL_PREFIX@);
        let pieces = split_from(url, 15, '&');
        let ghost pv = spec_split(url@.skip(15), '&');
        let mut version: Option<u32> = None;
        let mut pk: Option<String> = None;
        let mut port: Option<u16> = None;
        let mut ip4: Option<String> = None;
        let mut ip6: Option<String> = None;
        let mut idx: usize = 0;
        assert(pv.take(0) =~= Seq::<Seq<char>>::empty());
        while idx < pieces.len()
            invariant
                pv == spec_split(url@.skip(15), '&'),
                url@.len() >= 15,
                url@.take(15) == PAIRING_URL_PREFIX@,
                pieces@.len() == pv.len(),
                forall|k: int| 0 <= k < pieces@.len() ==> #[trigger] pieces@[k]@ == pv[k],
                idx <= pieces@.len(),
                spec_read_pairs(pv.take(idx as int)) == Ok::<QueryState, Seq<char>>(
                    state_of(version, pk, port, ip4, ip6),
                ),
            decreases pieces@.len() - idx,
        {
            proof {
                lemma_read_pairs_step(pv, idx as int);
            }
            let piece = pieces[idx].as_str();
            assert(piece@.skip(0) =~= piece@);
            let parts = split_from(piece, 0, '=');
            if parts.len() < 2 {
                proof {
                    lemma_read_pairs_error_stops(pv, idx + 1);
                }
                return Err("Invalid query".to_owned());
            }
            let key = parts[0].as_str();
            let value = parts[1].clone();
            if crate::text::str_eq(key, "v") {
                match crate::daemon::peer::parse_u64(value.as_str()) {
                    Some(v) => {
                        if v <= 4294967295 {
                            version = Some(v as u32);
                        } else {
                            proof {
                                lemma_read_pairs_error_stops(pv, idx + 1);
                            }
                            return Err("Invalid version".to_owned());
                        }
                    },
                    None => {
                        proof {
                            lemma_read_pairs_error_stops(pv, idx + 1);
                        }
                        return Err("Invalid version".to_owned());
                    },
                }
            } else if crate::text::str_eq(key, "pk") {
                pk = Some(value);
            } else if crate::text::str_eq(key, "p") {
                match crate::daemon::peer::parse_u64(value.as_str()) {
                    Some(v) => {
                        if v <= 65535 {
                            port = Some(v as u16);
                        } else {
                            proof {
                                lemma_read_pairs_error_stops(pv, idx + 1);
                            }
                            return Err("Invalid port".to_owned());
                        }
                    },
                    None => {
                        proof {
                            lemma_read_pairs_error_stops(pv, idx + 1);
                        }
                        return Err("Invalid port".to_owned());
                    },
                }
            } else if crate::text::str_eq(key, "ip4") {
                if !is_ipv4_text(value.as_str()) {
                    proof {
                        lemma_read_pairs_error_stops(pv, idx + 1);
                    }
                    return Err("Invalid IPv4".to_owned());
                }
                ip4 = Some(value);
            } else if crate::text::str_eq(key, "ip6") {
                if !is_ipv6_text(value.as_str()) {
                    proof {
                        lemma_read_pairs_error_stops(pv, idx + 1);
                    }
                    return Err("Invalid IPv6".to_owned());
                }
                ip6 = Some(value);
            }
            idx = idx + 1;
        }
        assert(pv.take(pv.len() as int) =~= pv);
        let version = match version {
            Some(v) => v,
            None => {
                return Err("Missing version".to_owned());
            },
        };
        let public_key_hex = match pk {
            Some(k) => k,
            None => {
                return Err("Missing public key".to_owned());
            },
        };
        let port = match port {
            Some(p) => p,
            None => {
                return Err("Missing port".to_owned());
            },
        };
        Ok(PairingInfo { version, public_key_hex, port, ipv4: ip4, ipv6: ip6 })
    }
}

} // verus!

verus! {

/// Whether `s` holds neither of the URL's separators.
pub open spec fn free_of_separators(s: Seq<char>) -> bool {
    !s.contains('&') && !s.contains('=')
}

proof fn lemma_split_without_sep(s: Seq<char>, sep: char)
    requires
        !s.contains(sep),
    ensures
        spec_split(s, sep) == seq![s],
    decreases s.len(),
{
    if s.len() > 0 {
        assert(!s.drop_last().contains(sep)) by {
            if s.drop_last().contains(sep) {
                let k = choose|k: int| 0 <= k < s.drop_last().len() && s.drop_last()[k] == sep;
                assert(s[k] == sep);
            }
        }
        lemma_split_without_sep(s.drop_last(), sep);
        assert(s.last() != sep) by {
            assert(s[s.len() - 1] == s.last());
        }
        assert(s.drop_last().push(s.last()) =~= s);
        assert(seq![s.drop_last()].update(0, s.drop_last().push(s.last())) =~= seq![s]);
    } else {
        assert(s =~= Seq::<char>::empty());
    }
}

proof fn lemma_split_join(a: Seq<char>, b: Seq<char>, sep: char)
    ensures
        spec_split(a + seq![sep] + b, sep) == spec_split(a, sep) + spec_split(b, sep),
    decreases b.len(),
{
    let s = a + seq![sep] + b;
    if b.len() == 0 {
        assert(s.drop_last() =~= a);
        assert(spec_split(b, sep) == seq![Seq::<char>::empty()]);
        assert(spec_split(a, sep).push(Seq::empty()) =~= spec_split(a, sep) + seq![Seq::<char>::empty()]);
    } else {
        let b1 = b.drop_last();
        assert(s.drop_last() =~= a + seq![sep] + b1);
        assert(s.last() == b.last());
        lemma_split_join(a, b1, sep);
        lemma_split_nonempty(b1, sep);
        lemma_split_nonempty(a, sep);
        let pa = spec_split(a, sep);
        let pb = spec_split(b1, sep);
        if b.last() == sep {
            assert((pa + pb).push(Seq::empty()) =~= pa + pb.push(Seq::empty()));
        } else {
            let p = pa + pb;
            assert(p.last() == pb.last());
            assert(p.update(p.len() - 1, p.last().push(b.last())) =~= pa + pb.update(
                pb.len() - 1,
                pb.last().push(b.last()),
            ));
        }
    }
}

proof fn lemma_key_value(key: Seq<char>, value: Seq<char>)
    requires
        !key.contains('='),
        !value.contains('='),
    ensures
        spec_split(key + seq!['='] + value, '=') == seq![key, value],
{
    lemma_split_join(key, value, '=');
    lemma_split_without_sep(key, '=');
    lemma_split_without_sep(value, '=');
    assert(seq![key] + seq![value] =~= seq![key, value]);
}

proof fn lemma_decimal_digits(n: nat)
    ensures
        decimal(n).len() > 0,
        all_digits(decimal(n)),
        digits_value(decimal(n)) == n,
        !decimal(n).contains('&'),
        !decimal(n).contains('='),
    decreases n,
{
    let d = decimal(n);
    if n < 10 {
        assert(d.drop_last() =~= Seq::<char>::empty());
        assert(digit_value(digit_char(n)) == n);
        assert(d.last() == digit_char(n));
        assert(digits_value(d) == digits_value(d.drop_last()) * 10 + digit_value(d.last()));
    } else {
        lemma_decimal_digits(n / 10);
        assert(d.drop_last() =~= decimal(n / 10));
        assert(digit_value(digit_char(n % 10)) == n % 10);
        assert(d.last() == digit_char(n % 10));
        assert(digits_value(d) == digits_value(d.drop_last()) * 10 + digit_value(d.last()));
        assert((n / 10) * 10 + n % 10 == n) by (nonlinear_arith);
        assert forall|i: int| 0 <= i < d.len() implies '0' <= #[trigger] d[i] && d[i] <= '9' by {
            if i < d.len() - 1 {
                assert(d[i] == decimal(n / 10)[i]);
            }
        }
    }
    assert forall|i: int| 0 <= i < d.len() implies d[i] != '&' && d[i] != '=' by {
        assert('0' <= d[i] && d[i] <= '9');
    }
}

} // verus!

verus! {

proof fn lemma_concat_free(a: Seq<char>, b: Seq<char>, c: char)
    requires
        !a.contains(c),
        !b.contains(c),
    ensures
        !(a + b).contains(c),
{
    if (a + b).contains(c) {
        let k = choose|k: int| 0 <= k < (a + b).len() && (a + b)[k] == c;
        if k < a.len() {
            assert(a[k] == c);
        } else {
            assert(b[k - a.len()] == c);
        }
    }
}

/// A pair `key=value` whose key and value hold no separator.
proof fn lemma_pair_free(key: Seq<char>, value: Seq<char>)
    requires
        free_of_separators(key),
        !value.contains('&'),
    ensures
        !(key + seq!['='] + value).contains('&'),
{
    assert(!seq!['='].contains('&')) by {
        if seq!['='].contains('&') {
            assert(seq!['='][0] == '=');
        }
    }
    lemma_concat_free(key, seq!['='], '&');
    lemma_concat_free(key + seq!['='], value, '&');
}

proof fn reveal_keys()
    ensures
        "v"@ == seq!['v'],
        "pk"@ == seq!['p', 'k'],
        "p"@ == seq!['p'],
        "ip4"@ == seq!['i', 'p', '4'],
        "ip6"@ == seq!['i', 'p', '6'],
{
    reveal_strlit("v");
    reveal_strlit("pk");
    reveal_strlit("p");
    reveal_strlit("ip4");
    reveal_strlit("ip6");
    assert("v"@ =~= seq!['v']);
    assert("pk"@ =~= seq!['p', 'k']);
    assert("p"@ =~= seq!['p']);
    assert("ip4"@ =~= seq!['i', 'p', '4']);
    assert("ip6"@ =~= seq!['i', 'p', '6']);
}

proof fn lemma_keys_free()
    ensures
        free_of_separators(seq!['v']),
        free_of_separators(seq!['p', 'k']),
        free_of_separators(seq!['p']),
        free_of_separators(seq!['i', 'p', '4']),
        free_of_separators(seq!['i', 'p', '6']),
{
    let k1 = seq!['v'];
    let k2 = seq!['p', 'k'];
    let k3 = seq!['p'];
    let k4 = seq!['i', 'p', '4'];
    let k6 = seq!['i', 'p', '6'];
    assert(k1[0] == 'v');
    assert(k2[0] == 'p' && k2[1] == 'k');
    assert(k3[0] == 'p');
    assert(k4[0] == 'i' && k4[1] == 'p' && k4[2] == '4');
    assert(k6[0] == 'i' && k6[1] == 'p' && k6[2] == '6');
}

proof fn lemma_read_version(st: QueryState)
    ensures
        spec_read_pair(st, seq!['v'] + seq!['='] + decimal(1)) == Ok::<QueryState, Seq<char>>(
            QueryState { version: Some(1u32), ..st },
        ),
{
    reveal_keys();
    lemma_keys_free();
    lemma_decimal_digits(1);
    let one = decimal(1);
    assert(one =~= seq!['1']);
    lemma_key_value(seq!['v'], one);
    assert(one.len() > 0 && one[0] != '+');
    assert(spec_parse_u64(one) == Some(1u64));
}

proof fn lemma_read_public_key(st: QueryState, pk: Seq<char>)
    requires
        free_of_separators(pk),
    ensures
        spec_read_pair(st, seq!['p', 'k'] + seq!['='] + pk) == Ok::<QueryState, Seq<char>>(
            QueryState { public_key_hex: Some(pk), ..st },
        ),
{
    reveal_keys();
    lemma_keys_free();
    lemma_key_value(seq!['p', 'k'], pk);
    assert(seq!['p', 'k'] != seq!['v']);
}

proof fn lemma_read_port(st: QueryState, port: u16)
    ensures
        spec_read_pair(st, seq!['p'] + seq!['='] + decimal(port as nat)) == Ok::<QueryState, Seq<char>>(
            QueryState { port: Some(port), ..st },
        ),
{
    reveal_keys();
    lemma_keys_free();
    let d = decimal(port as nat);
    lemma_decimal_digits(port as nat);
    lemma_key_value(seq!['p'], d);
    assert('0' <= d[0] && d[0] <= '9');
    assert(spec_parse_u64(d) == Some(port as u64));
    assert(seq!['p'][0] != seq!['v'][0]);
    assert(seq!['p'] != seq!['p', 'k']);
}

proof fn lemma_read_ip4(st: QueryState, ip: Seq<char>)
    requires
        free_of_separators(ip),
        spec_ipv4_text(ip),
    ensures
        spec_read_pair(st, seq!['i', 'p', '4'] + seq!['='] + ip) == Ok::<QueryState, Seq<char>>(
            QueryState { ipv4: Some(ip), ..st },
        ),
{
    reveal_keys();
    lemma_keys_free();
    let k = seq!['i', 'p', '4'];
    lemma_key_value(k, ip);
    assert(k != seq!['v'] && k != seq!['p', 'k'] && k != seq!['p']) by {
        assert(k[0] == 'i');
        assert(k.len() == 3);
    }
}

proof fn lemma_read_ip6(st: QueryState, ip: Seq<char>)
    requires
        free_of_separators(ip),
        spec_ipv6_text(ip),
    ensures
        spec_read_pair(st, seq!['i', 'p', '6'] + seq!['='] + ip) == Ok::<QueryState, Seq<char>>(
            QueryState { ipv6: Some(ip), ..st },
        ),
{
    reveal_keys();
    lemma_keys_free();
    let k = seq!['i', 'p', '6'];
    lemma_key_value(k, ip);
    assert(k != seq!['v'] && k != seq!['p', 'k'] && k != seq!['p'] && k != seq!['i', 'p', '4']) by {
        assert(k[0] == 'i');
        assert(k[2] == '6');
        assert(k.len() == 3);
    }
}

/// The `&`-separated pairs of a pairing URL's query.
pub open spec fn url_pairs(
    public_key_hex: Seq<char>,
    port: u16,
    ipv4: Option<Seq<char>>,
    ipv6: Option<Seq<char>>,
) -> Seq<Seq<char>> {
    let l3 = seq![
        seq!['v'] + seq!['='] + decimal(1),
        seq!['p', 'k'] + seq!['='] + public_key_hex,
        seq!['p'] + seq!['='] + decimal(port as nat),
    ];
    let l4 = match ipv4 {
        Some(ip) => l3.push(seq!['i', 'p', '4'] + seq!['='] + ip),
        None => l3,
    };
    match ipv6 {
        Some(ip) => l4.push(seq!['i', 'p', '6'] + seq!['='] + ip),
        None => l4,
    }
}

proof fn lemma_url_split(public_key_hex: Seq<char>, port: u16, ipv4: Option<Seq<char>>, ipv6: Option<Seq<char>>)
    requires
        free_of_separators(public_key_hex),
        ipv4 matches Some(ip) ==> free_of_separators(ip),
        ipv6 matches Some(ip) ==> free_of_separators(ip),
    ensures
        ({
            let url = spec_pairing_url(public_key_hex, port, ipv4, ipv6);
            &&& url.len() >= 15
            &&& url.take(15) == PAIRING_URL_PREFIX@
            &&& spec_split(url.skip(15), '&') == url_pairs(public_key_hex, port, ipv4, ipv6)
        }),
{
    reveal_strlit("tapauth://pair?v=1&pk=");
    reveal_strlit("tapauth://pair?");
    reveal_strlit("&p=");
    reveal_strlit("&ip4=");
    reveal_strlit("&ip6=");
    lemma_keys_free();
    let url = spec_pairing_url(public_key_hex, port, ipv4, ipv6);
    let amp = seq!['&'];
    let k4 = seq!['i', 'p', '4'];
    let k6 = seq!['i', 'p', '6'];
    lemma_decimal_digits(1);
    lemma_decimal_digits(port as nat);
    let one = decimal(1);
    assert(one =~= seq!['1']);
    let p1 = seq!['v'] + seq!['='] + one;
    let p2 = seq!['p', 'k'] + seq!['='] + public_key_hex;
    let p3 = seq!['p'] + seq!['='] + decimal(port as nat);
    lemma_pair_free(seq!['v'], one);
    lemma_pair_free(seq!['p', 'k'], public_key_hex);
    lemma_pair_free(seq!['p'], decimal(port as nat));
    let q3 = p1 + amp + p2 + amp + p3;
    lemma_split_join(p1, p2, '&');
    lemma_split_join(p1 + amp + p2, p3, '&');
    lemma_split_without_sep(p1, '&');
    lemma_split_without_sep(p2, '&');
    lemma_split_without_sep(p3, '&');
    let l3 = seq![p1, p2, p3];
    assert(spec_split(q3, '&') =~= l3);
    let tail4 = match ipv4 {
        Some(ip) => amp + k4 + seq!['='] + ip,
        None => Seq::<char>::empty(),
    };
    let tail6 = match ipv6 {
        Some(ip) => amp + k6 + seq!['='] + ip,
        None => Seq::<char>::empty(),
    };
    let l4 = match ipv4 {
        Some(ip) => l3.push(k4 + seq!['='] + ip),
        None => l3,
    };
    let q4 = q3 + tail4;
    let q5 = q4 + tail6;
    match ipv4 {
        Some(ip) => {
            let p4 = k4 + seq!['='] + ip;
            lemma_pair_free(k4, ip);
            lemma_split_join(q3, p4, '&');
            lemma_split_without_sep(p4, '&');
            assert(q4 =~= q3 + amp + p4);
            assert(spec_split(q4, '&') =~= l4);
        },
        None => {
            assert(q4 =~= q3);
        },
    }
    match ipv6 {
        Some(ip) => {
            let p6 = k6 + seq!['='] + ip;
            lemma_pair_free(k6, ip);
            lemma_split_join(q4, p6, '&');
            lemma_split_without_sep(p6, '&');
            assert(q5 =~= q4 + amp + p6);
            assert(spec_split(q5, '&') =~= l4.push(p6));
        },
        None => {
            assert(q5 =~= q4);
        },
    }
    assert(url.take(15) =~= PAIRING_URL_PREFIX@);
    assert(url.skip(15) =~= q5);
}

/// A pairing URL built from a public key that holds no `&` or `=` and
/// from textual IPv4 and IPv6 addresses parses back to exactly what it was
/// built from, version 1.
pub proof fn lemma_pairing_url_roundtrip(
    public_key_hex: Seq<char>,
    port: u16,
    ipv4: Option<Seq<char>>,
    ipv6: Option<Seq<char>>,
)
    requires
        free_of_separators(public_key_hex),
        ipv4 matches Some(ip) ==> spec_ipv4_text(ip),
        ipv6 matches Some(ip) ==> spec_ipv6_text(ip),
    ensures
        spec_parse_pairing_url(spec_pairing_url(public_key_hex, port, ipv4, ipv6)) == Ok::<
            PairingInfoView,
            Seq<char>,
        >(PairingInfoView { version: 1, public_key_hex, port, ipv4, ipv6 }),
{
    match ipv4 {
        Some(ip) => crate::address_text::lemma_ipv4_text_free(ip),
        None => {},
    }
    match ipv6 {
        Some(ip) => crate::address_text::lemma_ipv6_text_free(ip),
        None => {},
    }
    lemma_url_split(public_key_hex, port, ipv4, ipv6);
    let l5 = url_pairs(public_key_hex, port, ipv4, ipv6);
    let p1 = seq!['v'] + seq!['='] + decimal(1);
    let p2 = seq!['p', 'k'] + seq!['='] + public_key_hex;
    let p3 = seq!['p'] + seq!['='] + decimal(port as nat);
    let l3 = seq![p1, p2, p3];
    let l4 = match ipv4 {
        Some(ip) => l3.push(seq!['i', 'p', '4'] + seq!['='] + ip),
        None => l3,
    };
    let st0 = QueryState { version: None, public_key_hex: None, port: None, ipv4: None, ipv6: None };
    let st1 = QueryState { version: Some(1u32), ..st0 };
    let st2 = QueryState { public_key_hex: Some(public_key_hex), ..st1 };
    let st3 = QueryState { port: Some(port), ..st2 };
    let st4 = QueryState { ipv4: ipv4, ..st3 };
    let st5 = QueryState { ipv6: ipv6, ..st4 };
    lemma_read_version(st0);
    lemma_read_public_key(st1, public_key_hex);
    lemma_read_port(st2, port);
    assert(seq![p1].drop_last() =~= Seq::<Seq<char>>::empty());
    assert(seq![p1].last() == p1);
    assert(spec_read_pairs(Seq::<Seq<char>>::empty()) == Ok::<QueryState, Seq<char>>(st0));
    assert(spec_read_pairs(seq![p1]) == Ok::<QueryState, Seq<char>>(st1));
    assert(seq![p1, p2].drop_last() =~= seq![p1]);
    assert(spec_read_pairs(seq![p1, p2]) == Ok::<QueryState, Seq<char>>(st2));
    assert(l3.drop_last() =~= seq![p1, p2]);
    assert(spec_read_pairs(l3) == Ok::<QueryState, Seq<char>>(st3));
    match ipv4 {
        Some(ip) => {
            lemma_read_ip4(st3, ip);
            assert(l4.drop_last() =~= l3);
        },
        None => {},
    }
    assert(spec_read_pairs(l4) == Ok::<QueryState, Seq<char>>(st4));
    match ipv6 {
        Some(ip) => {
            lemma_read_ip6(st4, ip);
            assert(l5.drop_last() =~= l4);
        },
        None => {},
    }
    assert(spec_read_pairs(l5) == Ok::<QueryState, Seq<char>>(st5));
}

} // verus!
