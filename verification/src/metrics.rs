//! Names and addresses of the metrics that the relays expose, and the compact
//! text of header ids that the relays log.

use vstd::prelude::*;
use vstd::string::StringExecFns;

use crate::utils::HeaderId;

verus! {

/// Unparsed address that needs to be used to expose Prometheus metrics.
#[derive(Debug, Clone)]
pub struct MetricsAddress {
    /// Serve HTTP requests at given host.
    pub host: String,
    /// Serve HTTP requests at given port.
    pub port: u16,
}

impl Default for MetricsAddress {
    /// Metrics are exposed at `127.0.0.1:9616` by default.
    fn default() -> (r: Self)
        ensures
            r.host@ == seq!['1', '2', '7', '.', '0', '.', '0', '.', '1'],
            r.port == 9616,
    {
        let host = "127.0.0.1";
        proof {
            reveal_strlit("127.0.0.1");
        }
        MetricsAddress { host: host.to_owned(), port: 9616 }
    }
}

/// Returns metric name optionally prefixed with given prefix (and an underscore).
pub fn metric_name(prefix: Option<&str>, name: &str) -> (r: String)
    ensures
        r@ == match prefix {
            Some(prefix) => prefix@ + seq!['_'] + name@,
            None => name@,
        },
{
    match prefix {
        Some(prefix) => {
            let mut text = prefix.to_owned();
            let underscore = "_";
            proof {
                reveal_strlit("_");
            }
            text.append(underscore);
            text.append(name);
            text
        },
        None => name.to_owned(),
    }
}

/// Decimal digits of a number.
pub open spec fn decimal(n: nat) -> Seq<char>
    decreases n,
{
    if n < 10 {
        seq![(48 + n) as char]
    } else {
        decimal(n / 10).push((48 + n % 10) as char)
    }
}

/// The text of a single decimal digit.
fn digit_text(digit: u64) -> (r: &'static str)
    requires
        digit < 10,
    ensures
        r@ == seq![(48 + digit) as char],
{
    proof {
        reveal_strlit("0");
        reveal_strlit("1");
        reveal_strlit("2");
        reveal_strlit("3");
        reveal_strlit("4");
        reveal_strlit("5");
        reveal_strlit("6");
        reveal_strlit("7");
        reveal_strlit("8");
        reveal_strlit("9");
    }
    if digit == 0 {
        "0"
    } else if digit == 1 {
        "1"
    } else if digit == 2 {
        "2"
    } else if digit == 3 {
        "3"
    } else if digit == 4 {
        "4"
    } else if digit == 5 {
        "5"
    } else if digit == 6 {
        "6"
    } else if digit == 7 {
        "7"
    } else if digit == 8 {
        "8"
    } else {
        "9"
    }
}

/// Appends the decimal digits of `n` to `text`.
fn push_decimal_text(n: u64, text: &mut String)
    ensures
        final(text)@ == old(text)@ + decimal(n as nat),
    decreases n,
{
    if n >= 10 {
        push_decimal_text(n / 10, text);
    }
    text.append(digit_text(n % 10));
    proof {
        if n >= 10 {
            assert(decimal(n as nat) == decimal((n / 10) as nat).push((48 + n % 10) as char));
        }
        assert(final(text)@ =~= old(text)@ + decimal(n as nat));
    }
}

/// Text that the derived `Debug` of `HeaderId` gives for the id with this
/// number and hash: `HeaderId(<number>, <hash>)`.
pub open spec fn debug_header_id(number: u64, hash: u64) -> Seq<char> {
    seq!['H', 'e', 'a', 'd', 'e', 'r', 'I', 'd', '('] + decimal(number as nat) + seq![',', ' '] + decimal(
        hash as nat,
    ) + seq![')']
}

/// The text of a header id, as its derived `Debug` writes it.
pub fn header_id_text(id: HeaderId) -> (r: String)
    ensures
        r@ == debug_header_id(id.0, id.1),
{
    let head = "HeaderId(";
    let separator = ", ";
    let tail = ")";
    proof {
        reveal_strlit("HeaderId(");
        reveal_strlit(", ");
        reveal_strlit(")");
    }
    let mut text = head.to_owned();
    push_decimal_text(id.0, &mut text);
    text.append(separator);
    push_decimal_text(id.1, &mut text);
    text.append(tail);
    proof {
        assert(text@ =~= debug_header_id(id.0, id.1));
    }
    text
}

/// Compact format of IDs vector: `<nothing>` if there is none, the id if there
/// is one, both ids in brackets if there are two, and otherwise the number of
/// ids with the first and the last one.
pub fn format_ids(ids: &[HeaderId]) -> (r: String)
    ensures
        r@ == if ids@.len() == 0 {
            seq!['<', 'n', 'o', 't', 'h', 'i', 'n', 'g', '>']
        } else if ids@.len() == 1 {
            debug_header_id(ids@[0].0, ids@[0].1)
        } else if ids@.len() == 2 {
            seq!['['] + debug_header_id(ids@[0].0, ids@[0].1) + seq![',', ' '] + debug_header_id(
                ids@[1].0,
                ids@[1].1,
            ) + seq![']']
        } else {
            decimal(ids@.len()) + seq![':', '['] + debug_header_id(ids@[0].0, ids@[0].1) + seq![
                ' ',
                '.',
                '.',
                '.',
                ' ',
            ] + debug_header_id(ids@.last().0, ids@.last().1) + seq![']']
        },
{
    let len = ids.len();
    if len == 0 {
        let nothing = "<nothing>";
        proof {
            reveal_strlit("<nothing>");
        }
        return nothing.to_owned();
    }
    let first = header_id_text(ids[0]);
    if len == 1 {
        return first;
    }
    if len == 2 {
        let second = header_id_text(ids[1]);
        let open = "[";
        let separator = ", ";
        let close = "]";
        proof {
            reveal_strlit("[");
            reveal_strlit(", ");
            reveal_strlit("]");
        }
        let mut text = open.to_owned();
        text.append(first.as_str());
        text.append(separator);
        text.append(second.as_str());
        text.append(close);
        return text;
    }
    let last = header_id_text(ids[len - 1]);
    let open = ":[";
    let separator = " ... ";
    let close = "]";
    proof {
        reveal_strlit(":[");
        reveal_strlit(" ... ");
        reveal_strlit("]");
    }
    let mut text = String::new();
    push_decimal_text(len as u64, &mut text);
    text.append(open);
    text.append(first.as_str());
    text.append(separator);
    text.append(last.as_str());
    text.append(close);
    text
}

} // verus!
