use vstd::prelude::*;

verus! {

/// Byte value of the ASCII colon that separates the two fields of a request line.
pub const COLON: u8 = 58;

/// One of the tradable symbols. The protocol knows exactly these five names.
#[derive(Clone, Copy, Debug, PartialEq, Eq, Structural)]
pub enum Commodity {
    Apple,
    Pear,
    Tomato,
    Potato,
    Onion,
}

/// The direction of a client's interest.
#[derive(Clone, Copy, Debug, PartialEq, Eq, Structural)]
pub enum Operation {
    Buy,
    Sell,
}

/// A validated client request: an operation applied to a commodity.
#[derive(Clone, Copy, Debug, PartialEq, Eq, Structural)]
pub struct Message {
    pub operation: Operation,
    pub commodity: Commodity,
}

/// Why a request line was rejected. Validation order: shape first,
/// then the operation token, then the commodity token.
#[derive(Clone, Copy, Debug, PartialEq, Eq, Structural)]
pub enum ParseError {
    InvalidCommand,
    UnsupportedOperation,
    UnsupportedCommodity,
}

/// The wire spelling of an operation, as bytes.
pub open spec fn operation_bytes(op: Operation) -> Seq<u8> {
    match op {
        Operation::Buy => seq![66u8, 85u8, 89u8],  // "BUY"
        Operation::Sell => seq![83u8, 69u8, 76u8, 76u8],  // "SELL"
    }
}

/// The wire spelling of a commodity, as bytes.
pub open spec fn commodity_bytes(c: Commodity) -> Seq<u8> {
    match c {
        Commodity::Apple => seq![65u8, 80u8, 80u8, 76u8, 69u8],  // "APPLE"
        Commodity::Pear => seq![80u8, 69u8, 65u8, 82u8],  // "PEAR"
        Commodity::Tomato => seq![84u8, 79u8, 77u8, 65u8, 84u8, 79u8],  // "TOMATO"
        Commodity::Potato => seq![80u8, 79u8, 84u8, 65u8, 84u8, 79u8],  // "POTATO"
        Commodity::Onion => seq![79u8, 78u8, 73u8, 79u8, 78u8],  // "ONION"
    }
}

/// Which operation, if any, a token names (case-exact match).
pub open spec fn operation_of(tok: Seq<u8>) -> Option<Operation> {
    if tok == operation_bytes(Operation::Buy) {
        Some(Operation::Buy)
    } else if tok == operation_bytes(Operation::Sell) {
        Some(Operation::Sell)
    } else {
        None
    }
}

/// Which commodity, if any, a token names (case-exact match).
pub open spec fn commodity_of(tok: Seq<u8>) -> Option<Commodity> {
    if tok == commodity_bytes(Commodity::Apple) {
        Some(Commodity::Apple)
    } else if tok == commodity_bytes(Commodity::Pear) {
        Some(Commodity::Pear)
    } else if tok == commodity_bytes(Commodity::Tomato) {
        Some(Commodity::Tomato)
    } else if tok == commodity_bytes(Commodity::Potato) {
        Some(Commodity::Potato)
    } else if tok == commodity_bytes(Commodity::Onion) {
        Some(Commodity::Onion)
    } else {
        None
    }
}

/// Decide which operation a token names.
pub fn parse_operation(tok: &[u8]) -> (r: Option<Operation>)
    ensures
        r == operation_of(tok@),
{
    if tok.len() == 3 && tok[0] == 66 && tok[1] == 85 && tok[2] == 89 {
        proof {
            assert(tok@ =~= operation_bytes(Operation::Buy));
        }
        Some(Operation::Buy)
    } else if tok.len() == 4 && tok[0] == 83 && tok[1] == 69 && tok[2] == 76 && tok[3] == 76 {
        proof {
            assert(tok@ =~= operation_bytes(Operation::Sell));
        }
        Some(Operation::Sell)
    } else {
        None
    }
}

/// Decide which commodity a token names.
pub fn parse_commodity(tok: &[u8]) -> (r: Option<Commodity>)
    ensures
        r == commodity_of(tok@),
{
    if tok.len() == 5 && tok[0] == 65 && tok[1] == 80 && tok[2] == 80 && tok[3] == 76
        && tok[4] == 69 {
        proof {
            assert(tok@ =~= commodity_bytes(Commodity::Apple));
        }
        Some(Commodity::Apple)
    } else if tok.len() == 4 && tok[0] == 80 && tok[1] == 69 && tok[2] == 65 && tok[3] == 82 {
        proof {
            assert(tok@ =~= commodity_bytes(Commodity::Pear));
        }
        Some(Commodity::Pear)
    } else if tok.len() == 6 && tok[0] == 84 && tok[1] == 79 && tok[2] == 77 && tok[3] == 65
        && tok[4] == 84 && tok[5] == 79 {
        proof {
            assert(tok@ =~= commodity_bytes(Commodity::Tomato));
        }
        Some(Commodity::Tomato)
    } else if tok.len() == 6 && tok[0] == 80 && tok[1] == 79 && tok[2] == 84 && tok[3] == 65
        && tok[4] == 84 && tok[5] == 79 {
        proof {
            assert(tok@ =~= commodity_bytes(Commodity::Potato));
        }
        Some(Commodity::Potato)
    } else if tok.len() == 5 && tok[0] == 79 && tok[1] == 78 && tok[2] == 73 && tok[3] == 79
        && tok[4] == 78 {
        proof {
            assert(tok@ =~= commodity_bytes(Commodity::Onion));
        }
        Some(Commodity::Onion)
    } else {
        None
    }
}

/// Position `i` splits the line into two non-empty fields: it carries the
/// only colon of the line, with at least one byte before it and one after it.
pub open spec fn is_split_at(s: Seq<u8>, i: int) -> bool {
    &&& 1 <= i
    &&& i + 1 < s.len()
    &&& s[i] == COLON
    &&& forall|j: int| 0 <= j < s.len() && j != i ==> s[j] != COLON
}

/// A line is well shaped iff splitting it on colons yields exactly two
/// non-empty fields: one colon, neither first nor last.
pub open spec fn well_shaped(s: Seq<u8>) -> bool {
    exists|i: int| is_split_at(s, i)
}

/// The position of the colon of a well-shaped line.
pub open spec fn split_at(s: Seq<u8>) -> int {
    choose|i: int| is_split_at(s, i)
}

/// The bytes before the colon of a well-shaped line.
pub open spec fn operation_field(s: Seq<u8>) -> Seq<u8> {
    s.subrange(0, split_at(s))
}

/// The bytes after the colon of a well-shaped line.
pub open spec fn commodity_field(s: Seq<u8>) -> Seq<u8> {
    s.subrange(split_at(s) + 1, s.len() as int)
}

/// What parsing a line yields: the shape is checked first, then the
/// operation token, then the commodity token; the first failing check wins.
pub open spec fn parse_result(s: Seq<u8>) -> Result<Message, ParseError> {
    if !well_shaped(s) {
        Err(ParseError::InvalidCommand)
    } else if operation_of(operation_field(s)) is None {
        Err(ParseError::UnsupportedOperation)
    } else if commodity_of(commodity_field(s)) is None {
        Err(ParseError::UnsupportedCommodity)
    } else {
        Ok(Message {
            operation: operation_of(operation_field(s))->0,
            commodity: commodity_of(commodity_field(s))->0,
        })
    }
}

/// Two split positions of the same line coincide, so `split_at` is the one
/// position that `is_split_at` admits.
pub proof fn lemma_split_at_unique(s: Seq<u8>, i: int)
    requires
        is_split_at(s, i),
    ensures
        well_shaped(s),
        split_at(s) == i,
{
    assert(well_shaped(s));
    let k = split_at(s);
    assert(is_split_at(s, k));
    if k != i {
        assert(s[i] != COLON);  // from k's uniqueness clause
    }
}

/// Parse one request line into a validated message.
pub fn parse(line: &[u8]) -> (r: Result<Message, ParseError>)
    ensures
        r == parse_result(line@),
        !well_shaped(line@) ==> r == Err::<Message, ParseError>(ParseError::InvalidCommand),
        well_shaped(line@) && operation_of(operation_field(line@)) is None ==> r == Err::<
            Message,
            ParseError,
        >(ParseError::UnsupportedOperation),
        well_shaped(line@) && operation_of(operation_field(line@)) is Some && commodity_of(
            commodity_field(line@),
        ) is None ==> r == Err::<Message, ParseError>(ParseError::UnsupportedCommodity),
        well_shaped(line@) && operation_of(operation_field(line@)) is Some && commodity_of(
            commodity_field(line@),
        ) is Some ==> r == Ok::<Message, ParseError>(
            Message {
                operation: operation_of(operation_field(line@))->0,
                commodity: commodity_of(commodity_field(line@))->0,
            },
        ),
{
    let n = line.len();
    // One pass: remember the first colon and whether a second one exists.
    let mut colon: usize = 0;
    let mut found = false;
    let mut second = false;
    let mut i: usize = 0;
    while i < n
        invariant
            n == line@.len(),
            0 <= i <= n,
            !found ==> forall|j: int| 0 <= j < i ==> line@[j] != COLON,
            found ==> 0 <= colon < i && line@[colon as int] == COLON,
            found ==> forall|j: int| 0 <= j < colon ==> line@[j] != COLON,
            second <==> exists|j: int| colon < j < i && line@[j] == COLON && found,
        decreases n - i,
    {
        if line[i] == COLON {
            if found {
                second = true;
                // The colon at `i` itself witnesses the second one.
                assert(colon < i < i + 1 && line@[i as int] == COLON && found);
            } else {
                found = true;
                colon = i;
            }
        }
        i += 1;
    }
    if !found {
        proof {
            assert forall|k: int| !is_split_at(line@, k) by {
                if 0 <= k < n {
                    assert(line@[k] != COLON);
                }
            }
        }
        return Err(ParseError::InvalidCommand);
    }
    if second {
        proof {
            let j = choose|j: int| colon < j < n && line@[j] == COLON && found;
            assert forall|k: int| !is_split_at(line@, k) by {
                if is_split_at(line@, k) {
                    // `k` would carry the only colon, yet two positions carry one.
                    assert(line@[colon as int] == COLON);
                    assert(line@[j] == COLON);
                }
            }
        }
        return Err(ParseError::InvalidCommand);
    }
    if colon == 0 || colon + 1 >= n {
        proof {
            assert forall|k: int| !is_split_at(line@, k) by {
                if is_split_at(line@, k) {
                    // The only colon sits at `colon`, too far left or right.
                    assert(line@[k] == COLON);
                    assert(k == colon as int);
                }
            }
        }
        return Err(ParseError::InvalidCommand);
    }
    proof {
        assert(is_split_at(line@, colon as int));
        lemma_split_at_unique(line@, colon as int);
    }
    let op_tok: &[u8] = &line[0..colon];
    let cm_tok: &[u8] = &line[colon + 1..n];
    proof {
        assert(op_tok@ == operation_field(line@));
        assert(cm_tok@ == commodity_field(line@));
    }
    match parse_operation(op_tok) {
        None => Err(ParseError::UnsupportedOperation),
        Some(operation) => match parse_commodity(cm_tok) {
            None => Err(ParseError::UnsupportedCommodity),
            Some(commodity) => Ok(Message { operation, commodity }),
        },
    }
}

/// The acknowledgement line for a valid request: "ACK:" then the commodity.
pub open spec fn ack_line(c: Commodity) -> Seq<u8> {
    seq![65u8, 67u8, 75u8, COLON] + commodity_bytes(c)  // "ACK:"
}

/// The notification line for a trade: "TRADE:" then the commodity.
pub open spec fn trade_line(c: Commodity) -> Seq<u8> {
    seq![84u8, 82u8, 65u8, 68u8, 69u8, COLON] + commodity_bytes(c)  // "TRADE:"
}

/// The wire form of an intent: the operation, a colon, the commodity.
pub open spec fn intent_line(op: Operation, c: Commodity) -> Seq<u8> {
    operation_bytes(op) + seq![COLON] + commodity_bytes(c)
}

/// The text reported to the client for each kind of rejected line.
pub open spec fn error_line(e: ParseError) -> Seq<u8> {
    match e {
        // "Invalid order command."
        ParseError::InvalidCommand => seq![
            73u8, 110u8, 118u8, 97u8, 108u8, 105u8, 100u8, 32u8, 111u8, 114u8, 100u8, 101u8,
            114u8, 32u8, 99u8, 111u8, 109u8, 109u8, 97u8, 110u8, 100u8, 46u8,
        ],
        // "Operation not supported."
        ParseError::UnsupportedOperation => seq![
            79u8, 112u8, 101u8, 114u8, 97u8, 116u8, 105u8, 111u8, 110u8, 32u8, 110u8, 111u8,
            116u8, 32u8, 115u8, 117u8, 112u8, 112u8, 111u8, 114u8, 116u8, 101u8, 100u8, 46u8,
        ],
        // "Commodity not supported."
        ParseError::UnsupportedCommodity => seq![
            67u8, 111u8, 109u8, 109u8, 111u8, 100u8, 105u8, 116u8, 121u8, 32u8, 110u8, 111u8,
            116u8, 32u8, 115u8, 117u8, 112u8, 112u8, 111u8, 114u8, 116u8, 101u8, 100u8, 46u8,
        ],
    }
}

/// Append the wire spelling of a commodity to a buffer.
fn push_commodity_bytes(out: &mut Vec<u8>, c: Commodity)
    ensures
        final(out)@ == old(out)@ + commodity_bytes(c),
{
    match c {
        Commodity::Apple => {
            out.push(65);
            out.push(80);
            out.push(80);
            out.push(76);
            out.push(69);
        },
        Commodity::Pear => {
            out.push(80);
            out.push(69);
            out.push(65);
            out.push(82);
        },
        Commodity::Tomato => {
            out.push(84);
            out.push(79);
            out.push(77);
            out.push(65);
            out.push(84);
            out.push(79);
        },
        Commodity::Potato => {
            out.push(80);
            out.push(79);
            out.push(84);
            out.push(65);
            out.push(84);
            out.push(79);
        },
        Commodity::Onion => {
            out.push(79);
            out.push(78);
            out.push(73);
            out.push(79);
            out.push(78);
        },
    }
    proof {
        assert(out@ =~= old(out)@ + commodity_bytes(c));
    }
}

/// Append the wire spelling of an operation to a buffer.
fn push_operation_bytes(out: &mut Vec<u8>, op: Operation)
    ensures
        final(out)@ == old(out)@ + operation_bytes(op),
{
    match op {
        Operation::Buy => {
            out.push(66);
            out.push(85);
            out.push(89);
        },
        Operation::Sell => {
            out.push(83);
            out.push(69);
            out.push(76);
            out.push(76);
        },
    }
    proof {
        assert(out@ =~= old(out)@ + operation_bytes(op));
    }
}

/// Format the acknowledgement sent to a client after a valid request.
pub fn format_ack(c: Commodity) -> (r: Vec<u8>)
    ensures
        r@ == ack_line(c),
{
    let mut out: Vec<u8> = Vec::new();
    out.push(65);
    out.push(67);
    out.push(75);
    out.push(COLON);
    push_commodity_bytes(&mut out, c);
    proof {
        assert(out@ =~= ack_line(c));
    }
    out
}

/// Format the notification broadcast to every client when a trade fires.
pub fn format_trade(c: Commodity) -> (r: Vec<u8>)
    ensures
        r@ == trade_line(c),
{
    let mut out: Vec<u8> = Vec::new();
    out.push(84);
    out.push(82);
    out.push(65);
    out.push(68);
    out.push(69);
    out.push(COLON);
    push_commodity_bytes(&mut out, c);
    proof {
        assert(out@ =~= trade_line(c));
    }
    out
}

/// Format an intent in the wire form that `parse` accepts.
pub fn format_intent(op: Operation, c: Commodity) -> (r: Vec<u8>)
    ensures
        r@ == intent_line(op, c),
{
    let mut out: Vec<u8> = Vec::new();
    push_operation_bytes(&mut out, op);
    out.push(COLON);
    push_commodity_bytes(&mut out, c);
    proof {
        assert(out@ =~= intent_line(op, c));
    }
    out
}

/// Format the text reported to a client for a rejected line.
pub fn format_error(e: ParseError) -> (r: Vec<u8>)
    ensures
        r@ == error_line(e),
{
    let mut out: Vec<u8> = Vec::new();
    match e {
        ParseError::InvalidCommand => {
            // "Invalid order command."
            out.push(73);
            out.push(110);
            out.push(118);
            out.push(97);
            out.push(108);
            out.push(105);
            out.push(100);
            out.push(32);
            out.push(111);
            out.push(114);
            out.push(100);
            out.push(101);
            out.push(114);
            out.push(32);
            out.push(99);
            out.push(111);
            out.push(109);
            out.push(109);
            out.push(97);
            out.push(110);
            out.push(100);
            out.push(46);
        },
        ParseError::UnsupportedOperation => {
            // "Operation not supported."
            out.push(79);
            out.push(112);
            out.push(101);
            out.push(114);
            out.push(97);
            out.push(116);
            out.push(105);
            out.push(111);
            out.push(110);
            out.push(32);
            out.push(110);
            out.push(111);
            out.push(116);
            out.push(32);
            out.push(115);
            out.push(117);
            out.push(112);
            out.push(112);
            out.push(111);
            out.push(114);
            out.push(116);
            out.push(101);
            out.push(100);
            out.push(46);
        },
        ParseError::UnsupportedCommodity => {
            // "Commodity not supported."
            out.push(67);
            out.push(111);
            out.push(109);
            out.push(109);
            out.push(111);
            out.push(100);
            out.push(105);
            out.push(116);
            out.push(121);
            out.push(32);
            out.push(110);
            out.push(111);
            out.push(116);
            out.push(32);
            out.push(115);
            out.push(117);
            out.push(112);
            out.push(112);
            out.push(111);
            out.push(114);
            out.push(116);
            out.push(101);
            out.push(100);
            out.push(46);
        },
    }
    proof {
        assert(out@ =~= error_line(e));
    }
    out
}

/// Every operation token is recognised as the operation it spells.
pub proof fn lemma_operation_token_recognised(op: Operation)
    ensures
        operation_of(operation_bytes(op)) == Some(op),
{
    assert(operation_bytes(Operation::Buy).len() == 3);
    assert(operation_bytes(Operation::Sell).len() == 4);
}

/// Every commodity token is recognised as the commodity it spells.
pub proof fn lemma_commodity_token_recognised(c: Commodity)
    ensures
        commodity_of(commodity_bytes(c)) == Some(c),
{
    assert(commodity_bytes(Commodity::Apple).len() == 5);
    assert(commodity_bytes(Commodity::Pear).len() == 4);
    assert(commodity_bytes(Commodity::Tomato).len() == 6);
    assert(commodity_bytes(Commodity::Potato).len() == 6);
    assert(commodity_bytes(Commodity::Onion).len() == 5);
    // The two pairs of names of equal length differ in their first byte.
    assert(commodity_bytes(Commodity::Tomato)[0] == 84);
    assert(commodity_bytes(Commodity::Potato)[0] == 80);
    assert(commodity_bytes(Commodity::Apple)[0] == 65);
    assert(commodity_bytes(Commodity::Onion)[0] == 79);
}

/// Parsing is the inverse of formatting: the wire form of every
/// (operation, commodity) pair parses back to exactly that pair.
pub proof fn lemma_parse_format_round_trip(op: Operation, c: Commodity)
    ensures
        parse_result(intent_line(op, c)) == Ok::<Message, ParseError>(
            Message { operation: op, commodity: c },
        ),
{
    let s = intent_line(op, c);
    let i = operation_bytes(op).len() as int;
    assert(s[i] == COLON);
    assert forall|j: int| 0 <= j < s.len() && j != i implies s[j] != COLON by {
        if j < i {
            assert(s[j] == operation_bytes(op)[j]);
        } else {
            assert(s[j] == commodity_bytes(c)[j - i - 1]);
        }
    }
    assert(is_split_at(s, i));
    lemma_split_at_unique(s, i);
    assert(operation_field(s) =~= operation_bytes(op));
    assert(commodity_field(s) =~= commodity_bytes(c));
    lemma_operation_token_recognised(op);
    lemma_commodity_token_recognised(c);
}

} // verus!
