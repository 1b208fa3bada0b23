//! Port specifications: a port number with the protocol to knock it on,
//! written `<port>[/]<tcp|udp>`.

use vstd::prelude::*;
use crate::matcher::{captures, regex_captures, regex_compiles};
use crate::proto::{proto_of, Proto};
use crate::text::{
    all_digits, decimal_digits, decimal_value, lemma_decimal_digits_value, read_decimal,
    write_decimal,
};

verus! {

/// One knock of a sequence: a port number between 1 and 65535 and the
/// protocol on which it is knocked.
#[derive(Clone, Copy, Debug, PartialEq, Eq, Structural)]
pub struct Port {
    number: u16,
    proto: Proto,
}

/// Why a token is no port specification.
#[derive(Debug, PartialEq, Eq)]
pub enum ParseError {
    /// The token, held here, is not written `<port>[/]<tcp|udp>`.
    Format(String),
    /// The digit run, held here, writes no number between 1 and 65535.
    Range(String),
    /// The engine refused the pattern of the grammar.
    Pattern,
}

/// The pattern of a port specification: a run of digits, at most one `/`, and
/// at most one of the keywords `tcp` and `udp`, with nothing before or after.
pub open spec fn port_pattern() -> Seq<char> {
    "^(\\d+)[/]?(tcp|udp)?$"@
}

/// The text of group `i` of a match: nothing where the match has no such group
/// or the group took no part in it.
pub open spec fn group_text(groups: Seq<Option<Seq<char>>>, i: int) -> Option<Seq<char>> {
    if 0 <= i < groups.len() {
        groups[i]
    } else {
        None
    }
}

/// The digit run of a match: its first group, or `0` without one.
pub open spec fn digits_of(groups: Seq<Option<Seq<char>>>) -> Seq<char> {
    match group_text(groups, 1) {
        Some(digits) => digits,
        None => "0"@,
    }
}

/// The protocol keyword of a match: its second group, or `tcp` without one.
pub open spec fn keyword_of(groups: Seq<Option<Seq<char>>>) -> Seq<char> {
    match group_text(groups, 2) {
        Some(keyword) => keyword,
        None => "tcp"@,
    }
}

/// The port number that a digit run writes: the number itself where the run is
/// not empty, holds only the digits `0` to `9` and writes a number between 1
/// and 65535, and nothing otherwise.
pub open spec fn port_number(digits: Seq<char>) -> Option<u16> {
    if digits.len() > 0 && all_digits(digits) && 1 <= decimal_value(digits) <= u16::MAX {
        Some(decimal_value(digits) as u16)
    } else {
        None
    }
}

/// Whether `outcome` is what a token comes to, given what the matcher found in
/// it. Without a match the token is refused for its format. With one, the
/// digit run decides: it gives the port, with the protocol that the keyword
/// names, or it is refused for its range.
pub open spec fn parsed_as(
    outcome: Result<Port, ParseError>,
    token: Seq<char>,
    found: Option<Seq<Option<Seq<char>>>>,
) -> bool {
    match found {
        None => outcome matches Err(ParseError::Format(held)) && held@ == token,
        Some(groups) => match port_number(digits_of(groups)) {
            Some(number) => outcome matches Ok(port) && port.number() == number && port.proto()
                == proto_of(keyword_of(groups)),
            None => outcome matches Err(ParseError::Range(held)) && held@ == digits_of(groups),
        },
    }
}

/// Whether `outcome` is the result of parsing `token`: what the token comes to
/// with what the matcher finds in it, where the engine accepts the pattern of
/// the grammar, and the refusal of the pattern where it does not.
pub open spec fn parses_to(token: Seq<char>, outcome: Result<Port, ParseError>) -> bool {
    if regex_compiles(port_pattern()) {
        parsed_as(outcome, token, regex_captures(port_pattern(), token))
    } else {
        outcome matches Err(ParseError::Pattern)
    }
}

/// Whether `token` is written as a port specification: the digit run
/// `digits`, then a `/` or none, then the protocol keyword `keyword` or none.
pub open spec fn spells(
    token: Seq<char>,
    digits: Seq<char>,
    slash: bool,
    keyword: Option<Seq<char>>,
) -> bool {
    &&& digits.len() > 0
    &&& all_digits(digits)
    &&& keyword matches Some(word) ==> word == "tcp"@ || word == "udp"@
    &&& token == digits + (if slash {
        "/"@
    } else {
        Seq::empty()
    }) + (match keyword {
        Some(word) => word,
        None => Seq::empty(),
    })
}

/// The groups of a token written as a port specification: the whole token,
/// its digit run, and its keyword where it has one.
pub open spec fn spelled_groups(
    token: Seq<char>,
    digits: Seq<char>,
    keyword: Option<Seq<char>>,
) -> Seq<Option<Seq<char>>> {
    seq![Some(token), Some(digits), keyword]
}

/// Whether `token` parses to some port.
pub open spec fn accepted(token: Seq<char>) -> bool {
    exists|port: Port| parses_to(token, Ok(port))
}

impl ParseError {
    /// The text of this error.
    pub open spec fn spec_message(&self) -> Seq<char> {
        match self {
            ParseError::Format(token) => token@
                + " is invalid. Format: <port>/<tcp|udp>. Protocol is optional and will default to tcp."@,
            ParseError::Range(_) => "Invalid port number. Must be within 1-65535."@,
            ParseError::Pattern => "The pattern of a port specification was refused."@,
        }
    }

    /// Says in words what was wrong, naming the token where its format was.
    pub fn message(&self) -> (text: String)
        ensures
            text@ == self.spec_message(),
    {
        match self {
            ParseError::Format(token) => {
                let mut text = token.clone();
                text.append(
                    " is invalid. Format: <port>/<tcp|udp>. Protocol is optional and will default to tcp.",
                );
                text
            },
            ParseError::Range(_) => String::from_str("Invalid port number. Must be within 1-65535."),
            ParseError::Pattern => String::from_str(
                "The pattern of a port specification was refused.",
            ),
        }
    }
}

impl Port {
    #[verifier::type_invariant]
    spec fn in_range(self) -> bool {
        self.number >= 1
    }

    /// The port number.
    pub closed spec fn spec_number(&self) -> u16 {
        self.number
    }

    /// The protocol.
    pub closed spec fn spec_proto(&self) -> Proto {
        self.proto
    }

    /// A port with this number and protocol, unless the number is zero.
    pub fn new(number: u16, proto: Proto) -> (port: Option<Port>)
        ensures
            number == 0 <==> port is None,
            port matches Some(p) ==> p.number() == number && p.proto() == proto,
    {
        if number == 0 {
            None
        } else {
            Some(Port { number, proto })
        }
    }

    /// The port number, between 1 and 65535.
    #[verifier::when_used_as_spec(spec_number)]
    pub fn number(&self) -> (number: u16)
        ensures
            number == self.spec_number(),
            number >= 1,
    {
        proof {
            use_type_invariant(self);
        }
        self.number
    }

    /// The protocol on which the port is knocked.
    #[verifier::when_used_as_spec(spec_proto)]
    pub fn proto(&self) -> (proto: Proto)
        ensures
            proto == self.spec_proto(),
    {
        self.proto
    }

    /// What a token comes to, given what the matcher found in it.
    ///
    /// `found` holds nothing where the pattern did not match, else the text of
    /// each capture group. The first group is read as the digit run and the
    /// second as the protocol keyword; a missing digit run counts as `0`, a
    /// missing keyword as `tcp`.
    pub fn from_captures(token: &str, found: &Option<Vec<Option<String>>>) -> (outcome: Result<
        Port,
        ParseError,
    >)
        ensures
            parsed_as(outcome, token@, found.deep_view()),
    {
        match found {
            None => Err(ParseError::Format(String::from_str(token))),
            Some(groups) => {
                let digits: &str = match group(groups, 1) {
                    Some(text) => text,
                    None => "0",
                };
                let keyword: &str = match group(groups, 2) {
                    Some(text) => text,
                    None => "tcp",
                };
                match read_decimal(digits) {
                    Some(number) if number >= 1 => Ok(
                        Port { number, proto: Proto::from(keyword) },
                    ),
                    _ => Err(ParseError::Range(String::from_str(digits))),
                }
            },
        }
    }

    /// Parses one port specification.
    ///
    /// The token is matched against the pattern of the grammar, and the match
    /// decides as `from_captures` says. The pattern itself is refused only
    /// where the engine does not accept it, and then for every token.
    pub fn parse(token: &str) -> (outcome: Result<Port, ParseError>)
        ensures
            parses_to(token@, outcome),
    {
        match captures("^(\\d+)[/]?(tcp|udp)?$", token) {
            Ok(found) => Port::from_captures(token, &found),
            Err(_) => Err(ParseError::Pattern),
        }
    }

    /// The text of this port: its number in decimal, a `/`, and the keyword of
    /// its protocol.
    pub open spec fn spec_to_string(&self) -> Seq<char> {
        decimal_digits(self.number() as nat) + "/"@ + self.proto().keyword_spec()
    }

    /// Writes this port as `<port>/<tcp|udp>`.
    pub fn to_string(&self) -> (text: String)
        ensures
            text@ == self.spec_to_string(),
    {
        let mut text = write_decimal(self.number);
        text.append("/");
        text.append(self.proto.keyword());
        text
    }
}

/// Group `i` of a match, as `regex::Captures::get` gives it.
fn group<'a>(groups: &'a Vec<Option<String>>, i: usize) -> (text: Option<&'a str>)
    ensures
        match text {
            Some(t) => group_text(groups.deep_view(), i as int) == Some(t@),
            None => group_text(groups.deep_view(), i as int) is None,
        },
{
    if i < groups.len() {
        match &groups[i] {
            Some(text) => Some(text.as_str()),
            None => None,
        }
    } else {
        None
    }
}

/// Parses the port specifications of a knock sequence, in their order.
///
/// Gives one port for each token, in the order of the tokens, where every
/// token parses; else the error of the first token that does not, and no
/// port at all.
pub fn parse_ports(tokens: &Vec<String>) -> (outcome: Result<Vec<Port>, ParseError>)
    ensures
        match outcome {
            Ok(ports) => {
                &&& ports@.len() == tokens@.len()
                &&& forall|i: int|
                    0 <= i < tokens@.len() ==> parses_to(#[trigger] tokens@[i]@, Ok(ports@[i]))
            },
            Err(error) => exists|k: int|
                {
                    &&& 0 <= k < tokens@.len()
                    &&& #[trigger] parses_to(tokens@[k]@, Err(error))
                    &&& forall|i: int| 0 <= i < k ==> accepted(#[trigger] tokens@[i]@)
                },
        },
{
    let mut ports: Vec<Port> = Vec::new();
    let mut i: usize = 0;
    while i < tokens.len()
        invariant
            i <= tokens@.len(),
            ports@.len() == i,
            forall|j: int| 0 <= j < i ==> parses_to(#[trigger] tokens@[j]@, Ok(ports@[j])),
        decreases tokens@.len() - i,
    {
        match Port::parse(tokens[i].as_str()) {
            Ok(port) => {
                ports.push(port);
            },
            Err(error) => {
                assert(parses_to(tokens@[i as int]@, Err(error)));
                return Err(error);
            },
        }
        i += 1;
    }
    Ok(ports)
}

/// Parsing has one result for each token: two outcomes of one token are both
/// ports, and then the same port, or both errors of one kind. Where the engine
/// accepts the pattern of the grammar, the error is never the refusal of the
/// pattern.
pub proof fn lemma_parse_is_a_function(
    token: Seq<char>,
    first: Result<Port, ParseError>,
    second: Result<Port, ParseError>,
)
    requires
        parses_to(token, first),
        parses_to(token, second),
    ensures
        first is Ok ==> first == second,
        first matches Err(ParseError::Format(_)) <==> second matches Err(ParseError::Format(_)),
        first matches Err(ParseError::Range(_)) <==> second matches Err(ParseError::Range(_)),
        first matches Err(ParseError::Pattern) <==> second matches Err(ParseError::Pattern),
        regex_compiles(port_pattern()) ==> !(first matches Err(ParseError::Pattern)),
{
}

/// A token written as a port specification whose digit run writes a number
/// between 1 and 65535 comes to the port with that number, and with the
/// protocol of its keyword or TCP without one, where the matcher finds the
/// groups of that spelling.
pub proof fn lemma_valid_token(
    token: Seq<char>,
    digits: Seq<char>,
    slash: bool,
    keyword: Option<Seq<char>>,
    outcome: Result<Port, ParseError>,
)
    requires
        spells(token, digits, slash, keyword),
        1 <= decimal_value(digits) <= 65535,
        parsed_as(outcome, token, Some(spelled_groups(token, digits, keyword))),
    ensures
        outcome matches Ok(port) && port.number() == decimal_value(digits) && port.proto() == (
        if keyword == Some("udp"@) {
            Proto::UDP
        } else {
            Proto::TCP
        }),
{
    reveal_strlit("tcp");
    reveal_strlit("udp");
    let groups = spelled_groups(token, digits, keyword);
    assert(digits_of(groups) == digits);
    assert(keyword_of(groups) == match keyword {
        Some(word) => word,
        None => "tcp"@,
    });
    assert("tcp"@[0] != "udp"@[0]);
}

/// A token written as a port specification whose digit run writes zero or a
/// number above 65535 is refused for its range, with that digit run, where the
/// matcher finds the groups of that spelling.
pub proof fn lemma_number_out_of_range(
    token: Seq<char>,
    digits: Seq<char>,
    slash: bool,
    keyword: Option<Seq<char>>,
    outcome: Result<Port, ParseError>,
)
    requires
        spells(token, digits, slash, keyword),
        decimal_value(digits) == 0 || decimal_value(digits) > 65535,
        parsed_as(outcome, token, Some(spelled_groups(token, digits, keyword))),
    ensures
        outcome matches Err(ParseError::Range(held)) && held@ == digits,
{
}

/// A token in which the matcher finds nothing is refused for its format, with
/// the token itself.
pub proof fn lemma_unmatched_token(token: Seq<char>, outcome: Result<Port, ParseError>)
    requires
        parsed_as(outcome, token, None),
    ensures
        outcome matches Err(ParseError::Format(held)) && held@ == token,
{
}

/// No token comes to two different results for one finding of the matcher:
/// two ports are the same port, and a port excludes an error.
pub proof fn lemma_outcome_is_unique(
    first: Result<Port, ParseError>,
    second: Result<Port, ParseError>,
    token: Seq<char>,
    found: Option<Seq<Option<Seq<char>>>>,
)
    requires
        parsed_as(first, token, found),
        parsed_as(second, token, found),
    ensures
        first is Ok <==> second is Ok,
        first is Ok ==> first == second,
        first matches Err(ParseError::Format(_)) <==> second matches Err(ParseError::Format(_)),
{
}

/// The text written for a port with a number of at least 1 is a port
/// specification, and it comes back to the same port where the matcher finds
/// the groups of that spelling.
pub proof fn lemma_written_port_parses(port: Port, outcome: Result<Port, ParseError>)
    requires
        port.number() >= 1,
        parsed_as(
            outcome,
            port.spec_to_string(),
            Some(
                spelled_groups(
                    port.spec_to_string(),
                    decimal_digits(port.number() as nat),
                    Some(port.proto().keyword_spec()),
                ),
            ),
        ),
    ensures
        spells(
            port.spec_to_string(),
            decimal_digits(port.number() as nat),
            true,
            Some(port.proto().keyword_spec()),
        ),
        outcome == Ok::<Port, ParseError>(port),
{
    lemma_decimal_digits_value(port.number() as nat);
    reveal_strlit("tcp");
    reveal_strlit("udp");
    let digits = decimal_digits(port.number() as nat);
    let keyword = port.proto().keyword_spec();
    let groups = spelled_groups(port.spec_to_string(), digits, Some(keyword));
    assert(digits_of(groups) == digits);
    assert(keyword_of(groups) == keyword);
    assert("tcp"@[0] != "udp"@[0]);
    assert(proto_of(keyword) == port.proto());
}

} // verus!
