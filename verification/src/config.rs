use vstd::prelude::*;
use vstd::string::StringSliceAdditionalSpecFns;
use vstd::utf8::encode_utf8;

verus! {

/// The numeric value of a run of decimal digit bytes, most significant first.
pub open spec fn spec_dec_value(digits: Seq<u8>) -> int
    decreases digits.len(),
{
    if digits.len() == 0 {
        0
    } else {
        spec_dec_value(digits.drop_last()) * 10 + (digits.last() - 48)
    }
}

/// Every byte is an ASCII decimal digit.
pub open spec fn spec_all_digits(s: Seq<u8>) -> bool {
    forall|i: int| 0 <= i < s.len() ==> 48 <= #[trigger] s[i] <= 57
}

/// What parsing an unsigned 64-bit decimal accepts: an optional leading plus
/// sign, then one or more digits, with the value in range; anything else —
/// empty input, a stray byte, a value too large — is rejected.
pub open spec fn spec_parse_u64(s: Seq<u8>) -> Option<u64> {
    let digits = if s.len() > 0 && s[0] == 43 {
        s.skip(1)
    } else {
        s
    };
    if digits.len() > 0 && spec_all_digits(digits) && spec_dec_value(digits) <= u64::MAX {
        Some(spec_dec_value(digits) as u64)
    } else {
        None
    }
}

/// What parsing an unsigned 16-bit decimal accepts: as for 64 bits, with the
/// tighter range.
pub open spec fn spec_parse_u16(s: Seq<u8>) -> Option<u16> {
    match spec_parse_u64(s) {
        Some(v) => if v <= u16::MAX {
            Some(v as u16)
        } else {
            None
        },
        None => None,
    }
}

/// A longer digit run never has a smaller value.
proof fn lemma_dec_value_prefix(digits: Seq<u8>, k: int)
    requires
        0 <= k <= digits.len(),
        spec_all_digits(digits),
        digits.len() > 0,
    ensures
        spec_dec_value(digits) >= spec_dec_value(digits.subrange(0, k)),
        spec_dec_value(digits) >= 0,
    decreases digits.len(),
{
    if digits.len() > 0 {
        let shorter = digits.drop_last();
        assert(forall|i: int| 0 <= i < shorter.len() ==> shorter[i] == digits[i]);
        if shorter.len() > 0 {
            lemma_dec_value_prefix(shorter, if k <= shorter.len() {
                k
            } else {
                shorter.len() as int
            });
        }
        if k < digits.len() {
            assert(digits.subrange(0, k) =~= shorter.subrange(0, k));
        } else {
            assert(digits.subrange(0, k) =~= digits);
        }
    }
}

/// Parse an unsigned 64-bit decimal from a string, as the start-slot setting
/// is read.
pub fn parse_u64_str(s: &str) -> (r: Option<u64>)
    ensures
        r == spec_parse_u64(s.spec_bytes()),
{
    let bytes = s.as_bytes();
    let ghost all = s.spec_bytes();
    let start: usize = if bytes.len() > 0 && bytes[0] == 43 {
        1
    } else {
        0
    };
    let ghost digits = if all.len() > 0 && all[0] == 43 {
        all.skip(1)
    } else {
        all
    };
    proof {
        assert(digits =~= all.subrange(start as int, all.len() as int));
    }
    if start >= bytes.len() {
        return None;
    }
    let mut acc: u64 = 0;
    let mut j: usize = start;
    while j < bytes.len()
        invariant
            all == s.spec_bytes(),
            bytes@ == all,
            start < all.len(),
            start <= j <= all.len(),
            start == if all.len() > 0 && all[0] == 43 {
                1int
            } else {
                0int
            },
            digits == if all.len() > 0 && all[0] == 43 {
                all.skip(1)
            } else {
                all
            },
            digits =~= all.subrange(start as int, all.len() as int),
            spec_all_digits(all.subrange(start as int, j as int)),
            acc == spec_dec_value(all.subrange(start as int, j as int)),
        decreases bytes@.len() - j,
    {
        let b = bytes[j];
        if b < 48 || b > 57 {
            proof {
                assert(digits[j - start] == b);
            }
            return None;
        }
        let ghost sofar = all.subrange(start as int, j as int);
        let ghost now = all.subrange(start as int, (j + 1) as int);
        proof {
            assert(now.drop_last() =~= sofar);
            assert(now.last() == b);
        }
        let step = match acc.checked_mul(10) {
            Some(x) => x,
            None => {
                proof {
                    assert(now =~= digits.subrange(0, (j + 1 - start) as int));
                    lemma_overflow_rejects(digits, (j + 1 - start) as int);
                }
                return None;
            },
        };
        acc = match step.checked_add((b - 48) as u64) {
            Some(y) => y,
            None => {
                proof {
                    assert(now =~= digits.subrange(0, (j + 1 - start) as int));
                    lemma_overflow_rejects(digits, (j + 1 - start) as int);
                }
                return None;
            },
        };
        j = j + 1;
    }
    proof {
        assert(all.subrange(start as int, j as int) =~= digits);
    }
    Some(acc)
}

/// When a digit prefix of the run already exceeds the range, the whole run
/// does too, and parsing rejects it.
proof fn lemma_overflow_rejects(digits: Seq<u8>, k: int)
    requires
        0 < k <= digits.len(),
        spec_all_digits(digits.subrange(0, k)),
        spec_dec_value(digits.subrange(0, k)) > u64::MAX,
    ensures
        !(spec_all_digits(digits) && spec_dec_value(digits) <= u64::MAX),
{
    if spec_all_digits(digits) {
        lemma_dec_value_prefix(digits, k);
    }
}

/// Parse an unsigned 16-bit decimal from a string, as the server port is
/// read.
pub fn parse_u16_str(s: &str) -> (r: Option<u16>)
    ensures
        r == spec_parse_u16(s.spec_bytes()),
{
    match parse_u64_str(s) {
        Some(v) => if v <= 65535 {
            Some(v as u16)
        } else {
            None
        },
        None => None,
    }
}

/// Startup configuration, environment-sourced and validated before the
/// pipeline runs.
pub struct Config {
    pub database_url: String,
    pub solana_rpc_url: String,
    pub server_host: String,
    pub server_port: u16,
    pub program_id: String,
    pub start_slot: Option<u64>,
}

/// Why startup configuration was rejected.
#[derive(Clone, Copy, Debug, PartialEq, Eq, Structural)]
pub enum ConfigError {
    /// The database connection string is required and was absent.
    MissingDatabaseUrl,
    /// The server port setting was present but is not a valid port number.
    InvalidServerPort,
}

/// The default network RPC endpoint.
pub open spec fn spec_default_solana_rpc() -> Seq<char> {
    "https://api.mainnet-beta.solana.com"@
}

/// The default bind host.
pub open spec fn spec_default_server_host() -> Seq<char> {
    "0.0.0.0"@
}

/// The default bind port.
pub open spec fn spec_default_server_port() -> u16 {
    5000
}

/// The default target program identifier.
pub open spec fn spec_default_program_id() -> Seq<char> {
    "62NbBCCxPfR83xtgw3AaxKGHyyDdxobrcCGzA7s7LFie"@
}

impl Config {
    /// Assemble and validate the configuration from raw settings. The
    /// database connection string is required; endpoint, host, port and
    /// program identifier fall back to their defaults; a present but
    /// unparsable port is rejected, while a present but unparsable start
    /// slot is simply ignored.
    pub fn build(
        database_url: Option<String>,
        solana_rpc_url: Option<String>,
        server_host: Option<String>,
        server_port: Option<String>,
        program_id: Option<String>,
        start_slot: Option<String>,
    ) -> (r: Result<Config, ConfigError>)
        ensures
            database_url is None ==> r == Err::<Config, ConfigError>(
                ConfigError::MissingDatabaseUrl,
            ),
            database_url is Some && (server_port matches Some(p) && spec_parse_u16(
                encode_utf8(p@),
            ) is None) ==> r == Err::<Config, ConfigError>(ConfigError::InvalidServerPort),
            r matches Ok(c) ==> {
                &&& database_url matches Some(d) && c.database_url@ == d@
                &&& c.solana_rpc_url@ == match solana_rpc_url {
                    Some(u) => u@,
                    None => spec_default_solana_rpc(),
                }
                &&& c.server_host@ == match server_host {
                    Some(h) => h@,
                    None => spec_default_server_host(),
                }
                &&& Some(c.server_port) == match server_port {
                    Some(p) => spec_parse_u16(encode_utf8(p@)),
                    None => Some(spec_default_server_port()),
                }
                &&& c.program_id@ == match program_id {
                    Some(p) => p@,
                    None => spec_default_program_id(),
                }
                &&& c.start_slot == match start_slot {
                    Some(s) => spec_parse_u64(encode_utf8(s@)),
                    None => None::<u64>,
                }
            },
            r is Ok <==> database_url is Some && match server_port {
                Some(p) => spec_parse_u16(encode_utf8(p@)) is Some,
                None => true,
            },
    {
        let database_url = match database_url {
            Some(d) => d,
            None => {
                return Err(ConfigError::MissingDatabaseUrl);
            },
        };
        let server_port: u16 = match server_port {
            Some(p) => match parse_u16_str(p.as_str()) {
                Some(v) => v,
                None => {
                    return Err(ConfigError::InvalidServerPort);
                },
            },
            None => 5000,
        };
        let start_slot: Option<u64> = match start_slot {
            Some(s) => parse_u64_str(s.as_str()),
            None => None,
        };
        Ok(
            Config {
                database_url,
                solana_rpc_url: match solana_rpc_url {
                    Some(u) => u,
                    None => "https://api.mainnet-beta.solana.com".to_owned(),
                },
                server_host: match server_host {
                    Some(h) => h,
                    None => "0.0.0.0".to_owned(),
                },
                server_port,
                program_id: match program_id {
                    Some(p) => p,
                    None => "62NbBCCxPfR83xtgw3AaxKGHyyDdxobrcCGzA7s7LFie".to_owned(),
                },
                start_slot,
            },
        )
    }
}

/// The slot the pipeline resumes from: the configured start if one was given,
/// else the highest slot already stored, else zero on an empty store.
pub fn resolve_start_slot(configured: Option<u64>, stored_max: Option<u64>) -> (slot: u64)
    ensures
        slot == match configured {
            Some(s) => s,
            None => match stored_max {
                Some(m) => m,
                None => 0u64,
            },
        },
{
    match configured {
        Some(s) => s,
        None => match stored_max {
            Some(m) => m,
            None => 0,
        },
    }
}

} // verus!
