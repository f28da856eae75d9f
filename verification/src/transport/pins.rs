//! A line-oriented store of trusted certificate fingerprints.
use crate::error::{DcError, DcErrorView};
use crate::text::{chars_of, decimal, joined, owned, text_between, with_number};
use crate::transport::fingerprint::{
    format_fingerprint, hex_text, law_fingerprint_reads_back, lemma_hex_text, parse_fingerprint,
    parsed_fingerprint,
};
use crate::transport::state::same_fingerprint;
use vstd::prelude::*;
use vstd::string::StringExecFns;

verus! {

/// Whether a character is white space as Unicode defines it.
pub open spec fn whitespace(c: char) -> bool {
    let code = c as nat;
    ||| 0x9 <= code <= 0xd
    ||| code == 0x20
    ||| code == 0x85
    ||| code == 0xa0
    ||| code == 0x1680
    ||| 0x2000 <= code <= 0x200a
    ||| code == 0x2028
    ||| code == 0x2029
    ||| code == 0x202f
    ||| code == 0x205f
    ||| code == 0x3000
}

/// The number of characters before the first occurrence of a character.
pub open spec fn until(text: Seq<char>, stop: char) -> nat
    decreases text.len(),
{
    if text.len() == 0 || text[0] == stop {
        0
    } else {
        1 + until(text.drop_first(), stop)
    }
}

/// The first line of a text, without its line feed and without a carriage return before that.
pub open spec fn first_line(text: Seq<char>) -> Seq<char> {
    let end = until(text, '\n');
    if 0 < end < text.len() && text[end - 1] == '\r' {
        text.take(end - 1)
    } else {
        text.take(end as int)
    }
}

/// What follows the first line of a text.
pub open spec fn other_lines(text: Seq<char>) -> Seq<char> {
    let end = until(text, '\n');
    if end < text.len() {
        text.skip(end as int + 1)
    } else {
        Seq::empty()
    }
}

/// Whether a line holds no pin: it is blank or a comment.
pub open spec fn holds_no_pin(line: Seq<char>) -> bool {
    ||| forall|i: int| 0 <= i < line.len() ==> whitespace(#[trigger] line[i])
    ||| line.len() > 0 && line[0] == '#'
}

/// The pins of a text, added to those that are known: a line gives an endpoint, a space and the
/// fingerprint, and a later line replaces an earlier one for the same endpoint. `number` lines
/// came before.
pub open spec fn pins_of(
    text: Seq<char>,
    number: nat,
    pins: Map<Seq<char>, Seq<u8>>,
) -> Result<Map<Seq<char>, Seq<u8>>, DcErrorView>
    decreases text.len(),
{
    if text.len() == 0 {
        Ok(pins)
    } else {
        let line = first_line(text);
        let space = until(line, ' ');
        if holds_no_pin(line) {
            pins_of(other_lines(text), number + 1, pins)
        } else if space >= line.len() {
            Err(
                DcErrorView::InvalidInput(
                    "invalid certificate pin at line "@ + decimal(number + 1),
                ),
            )
        } else {
            match parsed_fingerprint(line.skip(space as int + 1)) {
                Err(error) => Err(error),
                Ok(fingerprint) => pins_of(
                    other_lines(text),
                    number + 1,
                    pins.insert(line.take(space as int), fingerprint),
                ),
            }
        }
    }
}

/// Whether a text comes before another: at the first difference its character has the lower
/// code, or it ends first.
pub open spec fn precedes(first: Seq<char>, second: Seq<char>) -> bool
    decreases second.len(),
{
    if second.len() == 0 {
        false
    } else if first.len() == 0 {
        true
    } else if first[0] != second[0] {
        first[0] < second[0]
    } else {
        precedes(first.drop_first(), second.drop_first())
    }
}

/// An endpoint and its fingerprint.
pub struct PinView {
    pub endpoint: Seq<char>,
    pub fingerprint: Seq<u8>,
}

/// Whether pins stand in the order of their endpoints, each endpoint once.
pub open spec fn in_order(pins: Seq<PinView>) -> bool {
    forall|i: int, j: int|
        0 <= i < j < pins.len() ==> precedes(
            (#[trigger] pins[i]).endpoint,
            (#[trigger] pins[j]).endpoint,
        )
}

/// The fingerprint of an endpoint.
pub open spec fn pin_of(pins: Seq<PinView>, endpoint: Seq<char>) -> Option<Seq<u8>>
    decreases pins.len(),
{
    if pins.len() == 0 {
        None
    } else if pins[0].endpoint == endpoint {
        Some(pins[0].fingerprint)
    } else {
        pin_of(pins.drop_first(), endpoint)
    }
}

/// Pins as a map from endpoints to fingerprints.
pub open spec fn pin_map(pins: Seq<PinView>) -> Map<Seq<char>, Seq<u8>> {
    Map::new(
        |endpoint: Seq<char>| pin_of(pins, endpoint) is Some,
        |endpoint: Seq<char>| pin_of(pins, endpoint)->Some_0,
    )
}

/// What is trusted after an endpoint has shown a fingerprint, and whether that was recorded.
pub open spec fn trusting(
    pins: Map<Seq<char>, Seq<u8>>,
    endpoint: Seq<char>,
    actual: Seq<u8>,
    confirm_new: bool,
) -> (Map<Seq<char>, Seq<u8>>, Result<bool, DcErrorView>) {
    if pins.contains_key(endpoint) {
        if pins[endpoint] == actual {
            (pins, Ok(false))
        } else {
            (
                pins,
                Err(
                    DcErrorView::InvalidInput(
                        "certificate fingerprint changed for "@ + endpoint,
                    ),
                ),
            )
        }
    } else if confirm_new {
        (pins.insert(endpoint, actual), Ok(true))
    } else {
        (
            pins,
            Err(
                DcErrorView::InvalidInput(
                    "untrusted new certificate for "@ + endpoint + "; fingerprint="@ + hex_text(
                        actual,
                    ),
                ),
            ),
        )
    }
}

/// The line of a pin.
pub open spec fn pin_line(pin: PinView) -> Seq<char> {
    pin.endpoint + " "@ + hex_text(pin.fingerprint) + "\n"@
}

/// The text of pins, one line each.
pub open spec fn pin_text(pins: Seq<PinView>) -> Seq<char>
    decreases pins.len(),
{
    if pins.len() == 0 {
        Seq::empty()
    } else {
        pin_line(pins[0]) + pin_text(pins.drop_first())
    }
}

proof fn lemma_precedes_irreflexive(text: Seq<char>)
    ensures
        !precedes(text, text),
    decreases text.len(),
{
    if text.len() > 0 {
        lemma_precedes_irreflexive(text.drop_first());
    }
}

proof fn lemma_precedes_transitive(a: Seq<char>, b: Seq<char>, c: Seq<char>)
    requires
        precedes(a, b),
        precedes(b, c),
    ensures
        precedes(a, c),
    decreases c.len(),
{
    if a.len() > 0 && b.len() > 0 && c.len() > 0 && a[0] == b[0] && b[0] == c[0] {
        lemma_precedes_transitive(a.drop_first(), b.drop_first(), c.drop_first());
    }
}

/// What `pin_of` finds is a listed pin, and every listed pin of an ordered list is found.
proof fn lemma_pin_of(pins: Seq<PinView>, endpoint: Seq<char>)
    requires
        in_order(pins),
    ensures
        pin_of(pins, endpoint) matches Some(fingerprint) ==> exists|i: int|
            0 <= i < pins.len() && (#[trigger] pins[i]).endpoint == endpoint && pins[i].fingerprint
                == fingerprint,
        forall|i: int|
            0 <= i < pins.len() && (#[trigger] pins[i]).endpoint == endpoint ==> pin_of(
                pins,
                endpoint,
            ) == Some(pins[i].fingerprint),
    decreases pins.len(),
{
    if pins.len() > 0 {
        let rest = pins.drop_first();
        assert forall|i: int, j: int| 0 <= i < j < rest.len() implies precedes(
            (#[trigger] rest[i]).endpoint,
            (#[trigger] rest[j]).endpoint,
        ) by {
            assert(rest[i] == pins[i + 1] && rest[j] == pins[j + 1]);
        }
        lemma_pin_of(rest, endpoint);
        if pins[0].endpoint == endpoint {
            assert forall|i: int| 0 <= i < pins.len() && (#[trigger] pins[i]).endpoint
                == endpoint implies pin_of(pins, endpoint) == Some(pins[i].fingerprint) by {
                lemma_precedes_irreflexive(endpoint);
                assert(i == 0 || precedes(pins[0].endpoint, pins[i].endpoint));
            }
        } else {
            if pin_of(rest, endpoint) is Some {
                let i = choose|i: int|
                    0 <= i < rest.len() && (#[trigger] rest[i]).endpoint == endpoint
                        && rest[i].fingerprint == pin_of(rest, endpoint)->Some_0;
                assert(pins[i + 1] == rest[i]);
            }
            assert forall|i: int| 0 <= i < pins.len() && (#[trigger] pins[i]).endpoint
                == endpoint implies pin_of(pins, endpoint) == Some(pins[i].fingerprint) by {
                assert(pins[i] == rest[i - 1]);
            }
        }
    }
}

/// Inserting a pin where it belongs, or replacing the pin of its endpoint, gives the ordered
/// list of the changed map.
proof fn lemma_changed_pins(before: Seq<PinView>, after: Seq<PinView>, at: int, pin: PinView)
    requires
        in_order(before),
        0 <= at <= before.len(),
        forall|i: int| 0 <= i < at ==> precedes((#[trigger] before[i]).endpoint, pin.endpoint),
        ({
            ||| {
                &&& at < before.len()
                &&& before[at].endpoint == pin.endpoint
                &&& after == before.update(at, pin)
            }
            ||| {
                &&& at < before.len() ==> precedes(pin.endpoint, before[at].endpoint)
                &&& after == before.insert(at, pin)
            }
        }),
    ensures
        in_order(after),
        pin_map(after) == pin_map(before).insert(pin.endpoint, pin.fingerprint),
{
    let replaced = after == before.update(at, pin) && at < before.len() && before[at].endpoint
        == pin.endpoint;
    let shift: int = if replaced {
        0
    } else {
        1
    };
    assert forall|i: int, j: int| 0 <= i < j < after.len() implies precedes(
        (#[trigger] after[i]).endpoint,
        (#[trigger] after[j]).endpoint,
    ) by {
        let source = |k: int|
            if k <= at {
                k
            } else {
                k - shift
            };
        if i == at {
            if replaced {
                assert(precedes(before[at].endpoint, before[j].endpoint));
            } else {
                assert(after[j] == before[j - 1]);
                if j - 1 > at {
                    assert(precedes(before[at].endpoint, before[j - 1].endpoint));
                    lemma_precedes_transitive(
                        pin.endpoint,
                        before[at].endpoint,
                        before[j - 1].endpoint,
                    );
                }
            }
        } else if j == at {
            assert(after[i] == before[i]);
        } else {
            assert(after[i] == before[source(i)]);
            assert(after[j] == before[source(j)]);
        }
    }
    assert forall|endpoint: Seq<char>| #[trigger] pin_of(after, endpoint) == (if endpoint
        == pin.endpoint {
        Some(pin.fingerprint)
    } else {
        pin_of(before, endpoint)
    }) by {
        lemma_pin_of(before, endpoint);
        lemma_pin_of(after, endpoint);
        assert(after[at] == pin);
        if endpoint != pin.endpoint {
            if pin_of(after, endpoint) is Some {
                let i = choose|i: int|
                    0 <= i < after.len() && (#[trigger] after[i]).endpoint == endpoint
                        && after[i].fingerprint == pin_of(after, endpoint)->Some_0;
                let k: int = if i < at {
                    i
                } else {
                    i - shift
                };
                assert(before[k] == after[i]);
            }
            if pin_of(before, endpoint) is Some {
                let i = choose|i: int|
                    0 <= i < before.len() && (#[trigger] before[i]).endpoint == endpoint
                        && before[i].fingerprint == pin_of(before, endpoint)->Some_0;
                let k: int = if i < at {
                    i
                } else {
                    i + shift
                };
                assert(after[k] == before[i]);
            }
        }
    }
    assert(pin_map(after) =~= pin_map(before).insert(pin.endpoint, pin.fingerprint));
}

/// Where a text stands relative to another.
#[derive(Clone, Copy, Debug, Eq, PartialEq, Structural)]
enum Place {
    Before,
    Same,
    After,
}

fn place_of(first: &str, second: &str) -> (place: Place)
    ensures
        match place {
            Place::Before => precedes(first@, second@),
            Place::Same => first@ == second@,
            Place::After => precedes(second@, first@),
        },
{
    let a = chars_of(first);
    let b = chars_of(second);
    let mut index: usize = 0;
    assert(a@.skip(0) =~= a@);
    assert(b@.skip(0) =~= b@);
    while index < a.len() && index < b.len() && a[index] == b[index]
        invariant
            index <= a@.len(),
            index <= b@.len(),
            a@.take(index as int) == b@.take(index as int),
            precedes(a@, b@) == precedes(a@.skip(index as int), b@.skip(index as int)),
            precedes(b@, a@) == precedes(b@.skip(index as int), a@.skip(index as int)),
        decreases a@.len() - index,
    {
        assert(a@.skip(index as int).drop_first() =~= a@.skip(index + 1));
        assert(b@.skip(index as int).drop_first() =~= b@.skip(index + 1));
        assert(a@.take(index + 1) =~= a@.take(index as int).push(a@[index as int]));
        assert(b@.take(index + 1) =~= b@.take(index as int).push(b@[index as int]));
        index = index + 1;
    }
    if index == a.len() && index == b.len() {
        assert(a@.take(index as int) =~= a@);
        assert(b@.take(index as int) =~= b@);
        Place::Same
    } else if index == a.len() {
        Place::Before
    } else if index == b.len() {
        Place::After
    } else if a[index] < b[index] {
        Place::Before
    } else {
        Place::After
    }
}

fn is_whitespace(c: char) -> (result: bool)
    ensures
        result == whitespace(c),
{
    let code: u32 = c as u32;
    (0x9 <= code && code <= 0xd) || code == 0x20 || code == 0x85 || code == 0xa0 || code == 0x1680
        || (0x2000 <= code && code <= 0x200a) || code == 0x2028 || code == 0x2029 || code == 0x202f
        || code == 0x205f || code == 0x3000
}

proof fn lemma_until_bound(text: Seq<char>, stop: char)
    ensures
        until(text, stop) <= text.len(),
    decreases text.len(),
{
    if text.len() > 0 && text[0] != stop {
        lemma_until_bound(text.drop_first(), stop);
    }
}

proof fn lemma_until(text: Seq<char>, stop: char, end: int)
    requires
        0 <= end <= text.len(),
        forall|i: int| 0 <= i < end ==> #[trigger] text[i] != stop,
        end < text.len() ==> text[end] == stop,
    ensures
        until(text, stop) == end,
    decreases text.len(),
{
    if end > 0 {
        assert(text[0] != stop);
        assert forall|i: int| 0 <= i < end - 1 implies #[trigger] text.drop_first()[i] != stop by {
            assert(text.drop_first()[i] == text[i + 1]);
        }
        lemma_until(text.drop_first(), stop, end - 1);
    }
}

/// The position of the first occurrence of a character between two positions, or the last one.
fn find_char(chars: &[char], start: usize, end: usize, stop: char) -> (at: usize)
    requires
        start <= end <= chars@.len(),
    ensures
        start <= at <= end,
        at == start + until(chars@.subrange(start as int, end as int), stop),
{
    let mut at: usize = start;
    while at < end && chars[at] != stop
        invariant
            start <= at <= end <= chars@.len(),
            forall|i: int| start <= i < at ==> #[trigger] chars@[i] != stop,
        decreases end - at,
    {
        at = at + 1;
    }
    proof {
        lemma_until(chars@.subrange(start as int, end as int), stop, at - start);
    }
    at
}

/// Whether the characters between two positions are a line without a pin.
fn line_holds_no_pin(chars: &[char], start: usize, end: usize) -> (result: bool)
    requires
        start <= end <= chars@.len(),
    ensures
        result == holds_no_pin(chars@.subrange(start as int, end as int)),
{
    let ghost line = chars@.subrange(start as int, end as int);
    if start < end && chars[start] == '#' {
        return true;
    }
    let mut at: usize = start;
    while at < end
        invariant
            start <= at <= end <= chars@.len(),
            line == chars@.subrange(start as int, end as int),
            start < end ==> chars@[start as int] != '#',
            forall|i: int| 0 <= i < at - start ==> whitespace(#[trigger] line[i]),
        decreases end - at,
    {
        if !is_whitespace(chars[at]) {
            assert(!whitespace(line[at - start]));
            return false;
        }
        at = at + 1;
    }
    true
}

/// An endpoint whose certificate is trusted.
#[derive(Debug)]
struct Pin {
    endpoint: String,
    fingerprint: [u8; 32],
}

impl View for Pin {
    type V = PinView;

    closed spec fn view(&self) -> PinView {
        PinView { endpoint: self.endpoint@, fingerprint: self.fingerprint@ }
    }
}

closed spec fn pin_views(pins: Seq<Pin>) -> Seq<PinView> {
    pins.map_values(|pin: Pin| pin@)
}

/// A small, line-oriented pin database. A new pin is recorded only if it was confirmed, which
/// allows a program to show the fingerprint and to ask the user before it trusts a first
/// connection.
#[derive(Debug)]
pub struct CertificatePinStore {
    pins: Vec<Pin>,
}

impl View for CertificatePinStore {
    type V = Map<Seq<char>, Seq<u8>>;

    closed spec fn view(&self) -> Map<Seq<char>, Seq<u8>> {
        pin_map(self.listed())
    }
}

impl Clone for CertificatePinStore {
    fn clone(&self) -> (copy: CertificatePinStore)
        ensures
            copy@ == self@,
            copy.listed() == self.listed(),
    {
        proof {
            use_type_invariant(self);
        }
        let mut pins: Vec<Pin> = Vec::new();
        let mut at: usize = 0;
        while at < self.pins.len()
            invariant
                at <= self.pins@.len(),
                pins@.len() == at,
                forall|i: int| 0 <= i < at ==> (#[trigger] pins@[i])@ == self.pins@[i]@,
            decreases self.pins@.len() - at,
        {
            let endpoint = owned(self.pins[at].endpoint.as_str());
            pins.push(Pin { endpoint, fingerprint: self.pins[at].fingerprint });
            at = at + 1;
        }
        assert(pin_views(pins@) =~= pin_views(self.pins@));
        CertificatePinStore { pins }
    }
}

impl CertificatePinStore {
    /// The pins in the order of their endpoints.
    pub closed spec fn listed(&self) -> Seq<PinView> {
        pin_views(self.pins@)
    }

    #[verifier::type_invariant]
    spec fn ordered(self) -> bool {
        in_order(pin_views(self.pins@))
    }

    /// The store that a pin file describes; an absent file is an empty one.
    pub fn load(contents: &str) -> (result: Result<CertificatePinStore, DcError>)
        ensures
            match result {
                Ok(store) => pins_of(contents@, 0, Map::empty()) == Ok::<
                    Map<Seq<char>, Seq<u8>>,
                    DcErrorView,
                >(store@),
                Err(error) => pins_of(contents@, 0, Map::empty()) == Err::<
                    Map<Seq<char>, Seq<u8>>,
                    DcErrorView,
                >(error@),
            },
    {
        let chars = chars_of(contents);
        let available: usize = chars.len();
        let mut store = CertificatePinStore { pins: Vec::new() };
        assert(store@ =~= Map::<Seq<char>, Seq<u8>>::empty());
        let mut at: usize = 0;
        let mut number: usize = 0;
        assert(chars@.skip(0) =~= chars@);
        while at < available
            invariant
                number <= at <= available,
                available == chars@.len(),
                chars@ == contents@,
                pins_of(contents@, 0, Map::empty()) == pins_of(
                    chars@.skip(at as int),
                    number as nat,
                    store@,
                ),
            decreases available - at,
        {
            let ghost text = chars@.skip(at as int);
            assert(text =~= chars@.subrange(at as int, available as int));
            let end: usize = find_char(chars.as_slice(), at, available, '\n');
            let last: usize = if at < end && end < available && chars[end - 1] == '\r' {
                end - 1
            } else {
                end
            };
            let ghost line = chars@.subrange(at as int, last as int);
            assert(first_line(text) =~= line);
            let next: usize = if end < available {
                end + 1
            } else {
                end
            };
            assert(other_lines(text) =~= chars@.skip(next as int));
            if !line_holds_no_pin(chars.as_slice(), at, last) {
                let space: usize = find_char(chars.as_slice(), at, last, ' ');
                if space >= last {
                    return Err(
                        DcError::InvalidInput(
                            with_number(
                                "invalid certificate pin at line ",
                                (number + 1) as u64,
                            ),
                        ),
                    );
                }
                let value = text_between(chars.as_slice(), space + 1, last);
                assert(value@ =~= line.skip(space - at + 1));
                let fingerprint = match parse_fingerprint(value.as_str()) {
                    Ok(fingerprint) => fingerprint,
                    Err(error) => { return Err(error); },
                };
                let endpoint = text_between(chars.as_slice(), at, space);
                assert(endpoint@ =~= line.take(space - at));
                store.record(endpoint, fingerprint);
            }
            at = next;
            number = number + 1;
        }
        assert(chars@.skip(at as int) =~= Seq::<char>::empty());
        Ok(store)
    }

    /// The position of an endpoint, or the position where it would stand.
    fn position(&self, endpoint: &str) -> (result: (usize, bool))
        ensures
            result.0 <= self.pins@.len(),
            forall|i: int|
                0 <= i < result.0 ==> precedes(
                    (#[trigger] pin_views(self.pins@)[i]).endpoint,
                    endpoint@,
                ),
            result.1 ==> result.0 < self.pins@.len() && pin_views(
                self.pins@,
            )[result.0 as int].endpoint == endpoint@,
            !result.1 && result.0 < self.pins@.len() ==> precedes(
                endpoint@,
                pin_views(self.pins@)[result.0 as int].endpoint,
            ),
            result.1 == (pin_of(pin_views(self.pins@), endpoint@) is Some),
            result.1 ==> pin_of(pin_views(self.pins@), endpoint@) == Some(
                self.pins@[result.0 as int].fingerprint@,
            ),
    {
        proof {
            use_type_invariant(self);
        }
        let ghost views = pin_views(self.pins@);
        let mut at: usize = 0;
        while at < self.pins.len()
            invariant
                at <= self.pins@.len(),
                views == pin_views(self.pins@),
                in_order(views),
                views.len() == self.pins@.len(),
                forall|i: int| 0 <= i < at ==> precedes((#[trigger] views[i]).endpoint, endpoint@),
            decreases self.pins@.len() - at,
        {
            match place_of(self.pins[at].endpoint.as_str(), endpoint) {
                Place::Before => {
                    at = at + 1;
                },
                Place::Same => {
                    proof {
                        lemma_pin_of(views, endpoint@);
                        assert(views[at as int].endpoint == endpoint@);
                    }
                    return (at, true);
                },
                Place::After => {
                    proof {
                        self.lemma_absent(views, endpoint@, at as int);
                    }
                    return (at, false);
                },
            }
        }
        proof {
            self.lemma_absent(views, endpoint@, at as int);
        }
        (at, false)
    }

    proof fn lemma_absent(&self, views: Seq<PinView>, endpoint: Seq<char>, at: int)
        requires
            in_order(views),
            0 <= at <= views.len(),
            forall|i: int| 0 <= i < at ==> precedes((#[trigger] views[i]).endpoint, endpoint),
            at < views.len() ==> precedes(endpoint, views[at].endpoint),
        ensures
            pin_of(views, endpoint) is None,
    {
        lemma_pin_of(views, endpoint);
        lemma_precedes_irreflexive(endpoint);
        if pin_of(views, endpoint) is Some {
            let i = choose|i: int|
                0 <= i < views.len() && (#[trigger] views[i]).endpoint == endpoint
                    && views[i].fingerprint == pin_of(views, endpoint)->Some_0;
            if i > at {
                assert(precedes(views[at].endpoint, views[i].endpoint));
                lemma_precedes_transitive(endpoint, views[at].endpoint, endpoint);
            }
        }
    }

    /// Trusts a fingerprint for an endpoint, in place of an earlier one.
    fn record(&mut self, endpoint: String, fingerprint: [u8; 32])
        ensures
            final(self)@ == old(self)@.insert(endpoint@, fingerprint@),
    {
        proof {
            use_type_invariant(&*self);
        }
        let ghost before = pin_views(self.pins@);
        let (at, known) = self.position(endpoint.as_str());
        let pin = Pin { endpoint, fingerprint };
        let ghost view = pin@;
        let mut pins: Vec<Pin> = Vec::new();
        std::mem::swap(&mut pins, &mut self.pins);
        if known {
            pins.set(at, pin);
            assert(pin_views(pins@) =~= before.update(at as int, view));
        } else {
            pins.insert(at, pin);
            assert(pin_views(pins@) =~= before.insert(at as int, view));
        }
        proof {
            lemma_changed_pins(before, pin_views(pins@), at as int, view);
        }
        self.pins = pins;
    }

    /// The trusted fingerprint of an endpoint.
    pub fn fingerprint(&self, endpoint: &str) -> (result: Option<[u8; 32]>)
        ensures
            match result {
                Some(fingerprint) => self@.contains_key(endpoint@) && self@[endpoint@]
                    == fingerprint@,
                None => !self@.contains_key(endpoint@),
            },
    {
        let (at, known) = self.position(endpoint);
        if known {
            Some(self.pins[at].fingerprint)
        } else {
            None
        }
    }

    /// Compares a fingerprint with the trusted one. A new endpoint is recorded if that was
    /// confirmed, and then the result is true: the caller has to save the store.
    pub fn verify_or_record(
        &mut self,
        endpoint: &str,
        actual: [u8; 32],
        confirm_new: bool,
    ) -> (result: Result<bool, DcError>)
        ensures
            match result {
                Ok(recorded) => if recorded {
                    &&& !old(self)@.contains_key(endpoint@)
                    &&& confirm_new
                    &&& final(self)@ == old(self)@.insert(endpoint@, actual@)
                } else {
                    &&& old(self)@.contains_key(endpoint@)
                    &&& old(self)@[endpoint@] == actual@
                    &&& *final(self) == *old(self)
                },
                Err(error) => {
                    &&& *final(self) == *old(self)
                    &&& if old(self)@.contains_key(endpoint@) {
                        &&& old(self)@[endpoint@] != actual@
                        &&& error@ == DcErrorView::InvalidInput(
                            "certificate fingerprint changed for "@ + endpoint@,
                        )
                    } else {
                        &&& !confirm_new
                        &&& error@ == DcErrorView::InvalidInput(
                            "untrusted new certificate for "@ + endpoint@ + "; fingerprint="@
                                + hex_text(actual@),
                        )
                    }
                },
            },
            final(self)@ == trusting(old(self)@, endpoint@, actual@, confirm_new).0,
            match trusting(old(self)@, endpoint@, actual@, confirm_new).1 {
                Ok(recorded) => result == Ok::<bool, DcError>(recorded),
                Err(failure) => result matches Err(error) && error@ == failure,
            },
    {
        match self.fingerprint(endpoint) {
            Some(expected) => {
                if same_fingerprint(&expected, &actual) {
                    Ok(false)
                } else {
                    Err(
                        DcError::InvalidInput(
                            joined("certificate fingerprint changed for ", endpoint),
                        ),
                    )
                }
            },
            None => {
                if confirm_new {
                    self.record(owned(endpoint), actual);
                    Ok(true)
                } else {
                    let mut message = joined("untrusted new certificate for ", endpoint);
                    message.append("; fingerprint=");
                    message.append(format_fingerprint(actual).as_str());
                    Err(DcError::InvalidInput(message))
                }
            },
        }
    }

    /// The contents of the pin file: one line for each endpoint, in order.
    pub fn file_text(&self) -> (text: String)
        ensures
            text@ == pin_text(self.listed()),
            in_order(self.listed()),
            forall|i: int|
                0 <= i < self.listed().len() ==> (#[trigger] self.listed()[i]).fingerprint.len()
                    == 32,
            self@ == pin_map(self.listed()),
    {
        proof {
            use_type_invariant(self);
        }
        let mut text = String::new();
        let ghost views = pin_views(self.pins@);
        let mut at: usize = 0;
        assert(views.skip(0) =~= views);
        assert(text@ + pin_text(views) =~= pin_text(views));
        while at < self.pins.len()
            invariant
                at <= self.pins@.len(),
                views == pin_views(self.pins@),
                views.len() == self.pins@.len(),
                text@ + pin_text(views.skip(at as int)) == pin_text(views),
            decreases self.pins@.len() - at,
        {
            let ghost written = text@;
            text.append(self.pins[at].endpoint.as_str());
            text.append(" ");
            text.append(format_fingerprint(self.pins[at].fingerprint).as_str());
            text.append("\n");
            assert(text@ =~= written + pin_line(views[at as int]));
            assert(views.skip(at as int).drop_first() =~= views.skip(at + 1));
            assert(text@ + pin_text(views.skip(at + 1)) =~= written + (pin_line(views[at as int])
                + pin_text(views.skip(at + 1))));
            at = at + 1;
        }
        assert(views.skip(at as int) =~= Seq::<PinView>::empty());
        assert(text@ + Seq::<char>::empty() =~= text@);
        text
    }
}

/// Whether a line can hold an endpoint: it has no space and no line feed and does not look like
/// a comment.
pub open spec fn writable(endpoint: Seq<char>) -> bool {
    &&& forall|i: int| 0 <= i < endpoint.len() ==> #[trigger] endpoint[i] != ' ' && endpoint[i] != '\n'
    &&& endpoint.len() > 0 ==> endpoint[0] != '#'
}

proof fn lemma_pin_line(pin: PinView, rest: Seq<char>)
    requires
        writable(pin.endpoint),
        pin.fingerprint.len() == 32,
    ensures
        ({
            let text = pin_line(pin) + rest;
            let line = pin.endpoint + " "@ + hex_text(pin.fingerprint);
            &&& text.len() > 0
            &&& first_line(text) == line
            &&& other_lines(text) == rest
            &&& !holds_no_pin(line)
            &&& until(line, ' ') == pin.endpoint.len()
            &&& until(line, ' ') < line.len()
            &&& line.take(until(line, ' ') as int) == pin.endpoint
            &&& line.skip(until(line, ' ') as int + 1) == hex_text(pin.fingerprint)
        }),
{
    reveal_strlit(" ");
    reveal_strlit("\n");
    let hex = hex_text(pin.fingerprint);
    let text = pin_line(pin) + rest;
    let line = pin.endpoint + " "@ + hex;
    let size = pin.endpoint.len() as int;
    lemma_hex_text(pin.fingerprint);
    assert(line.len() == size + 65);
    assert(text =~= line + "\n"@ + rest);
    assert forall|i: int| 0 <= i < size + 65 implies #[trigger] text[i] != '\n' by {
        if i < size {
            assert(text[i] == pin.endpoint[i]);
        } else if i > size {
            assert(text[i] == hex[i - size - 1]);
        }
    }
    assert(text[size + 65] == '\n');
    lemma_until(text, '\n', size + 65);
    assert(text[size + 64] == hex[63]);
    assert(first_line(text) =~= line);
    assert(other_lines(text) =~= rest);
    assert(line[size + 1] == hex[0]);
    assert(!whitespace(line[size + 1]));
    if size > 0 {
        assert(line[0] == pin.endpoint[0]);
    }
    assert forall|i: int| 0 <= i < size implies #[trigger] line[i] != ' ' by {
        assert(line[i] == pin.endpoint[i]);
    }
    assert(line[size] == ' ');
    lemma_until(line, ' ', size);
    assert(line.take(size) =~= pin.endpoint);
    assert(line.skip(size + 1) =~= hex);
}

proof fn lemma_pins_read_back(pins: Seq<PinView>, number: nat, known: Map<Seq<char>, Seq<u8>>)
    requires
        in_order(pins),
        forall|i: int|
            0 <= i < pins.len() ==> writable((#[trigger] pins[i]).endpoint)
                && pins[i].fingerprint.len() == 32,
    ensures
        pins_of(pin_text(pins), number, known) == Ok::<Map<Seq<char>, Seq<u8>>, DcErrorView>(
            known.union_prefer_right(pin_map(pins)),
        ),
    decreases pins.len(),
{
    if pins.len() == 0 {
        assert(known.union_prefer_right(pin_map(pins)) =~= known);
    } else {
        let pin = pins[0];
        let rest = pins.drop_first();
        assert forall|i: int, j: int| 0 <= i < j < rest.len() implies precedes(
            (#[trigger] rest[i]).endpoint,
            (#[trigger] rest[j]).endpoint,
        ) by {
            assert(rest[i] == pins[i + 1] && rest[j] == pins[j + 1]);
        }
        assert forall|i: int| 0 <= i < rest.len() implies writable((#[trigger] rest[i]).endpoint)
            && rest[i].fingerprint.len() == 32 by {
            assert(rest[i] == pins[i + 1]);
        }
        lemma_pin_line(pin, pin_text(rest));
        law_fingerprint_reads_back(pin.fingerprint);
        let added = known.insert(pin.endpoint, pin.fingerprint);
        lemma_pins_read_back(rest, number + 1, added);
        assert(pin_of(rest, pin.endpoint) is None) by {
            lemma_pin_of(rest, pin.endpoint);
            if pin_of(rest, pin.endpoint) is Some {
                let i = choose|i: int|
                    0 <= i < rest.len() && (#[trigger] rest[i]).endpoint == pin.endpoint
                        && rest[i].fingerprint == pin_of(rest, pin.endpoint)->Some_0;
                assert(rest[i] == pins[i + 1]);
                lemma_precedes_irreflexive(pin.endpoint);
            }
        }
        assert(added.union_prefer_right(pin_map(rest)) =~= known.union_prefer_right(pin_map(pins)));
    }
}

/// The pins that were written to the file are read back from it.
pub proof fn law_pins_survive_the_file(pins: Seq<PinView>)
    requires
        in_order(pins),
        forall|i: int|
            0 <= i < pins.len() ==> writable((#[trigger] pins[i]).endpoint)
                && pins[i].fingerprint.len() == 32,
    ensures
        pins_of(pin_text(pins), 0, Map::empty()) == Ok::<Map<Seq<char>, Seq<u8>>, DcErrorView>(
            pin_map(pins),
        ),
{
    lemma_pins_read_back(pins, 0, Map::empty());
    assert(Map::<Seq<char>, Seq<u8>>::empty().union_prefer_right(pin_map(pins)) =~= pin_map(pins));
}

/// A fingerprint that is trusted stays trusted for good: another one for the same endpoint is refused,
/// confirmed or not, and changes nothing. A new endpoint is trusted exactly where that was confirmed,
/// and from then on with this fingerprint alone; no other endpoint is touched.
pub proof fn law_trust_is_given_once(
    pins: Map<Seq<char>, Seq<u8>>,
    endpoint: Seq<char>,
    other: Seq<char>,
    actual: Seq<u8>,
    later: Seq<u8>,
    confirm_new: bool,
    confirm_later: bool,
)
    ensures
        ({
            let (after, outcome) = trusting(pins, endpoint, actual, confirm_new);
            &&& outcome is Ok <==> (if pins.contains_key(endpoint) {
                pins[endpoint] == actual
            } else {
                confirm_new
            })
            &&& outcome is Err ==> after == pins
            &&& pins.contains_key(endpoint) ==> after == pins
            &&& outcome is Ok ==> after.contains_key(endpoint) && after[endpoint] == actual
            &&& outcome is Ok ==> (outcome->Ok_0 <==> !pins.contains_key(endpoint))
            &&& other != endpoint ==> (after.contains_key(other) <==> pins.contains_key(other)) && (
            pins.contains_key(other) ==> after[other] == pins[other])
            &&& outcome is Ok ==> (trusting(after, endpoint, later, confirm_later).1 is Ok <==> later
                == actual)
        }),
{
}

/// Each line of the file trusts one endpoint, named before the first space, with the fingerprint
/// behind it; a later line replaces an earlier one. Comments and empty lines say nothing.
pub proof fn law_lines_are_read_one_by_one(
    pin: PinView,
    rest: Seq<char>,
    number: nat,
    pins: Map<Seq<char>, Seq<u8>>,
    line: Seq<char>,
)
    requires
        writable(pin.endpoint),
        pin.fingerprint.len() == 32,
        forall|i: int| 0 <= i < line.len() ==> #[trigger] line[i] != '\n',
        line.len() > 0 ==> line.last() != '\r',
    ensures
        pin_line(pin) == pin.endpoint + seq![' '] + hex_text(pin.fingerprint) + seq!['\n'],
        pins_of(Seq::empty(), number, pins) == Ok::<Map<Seq<char>, Seq<u8>>, DcErrorView>(pins),
        pins_of(pin_line(pin) + rest, number, pins) == pins_of(
            rest,
            number + 1,
            pins.insert(pin.endpoint, pin.fingerprint),
        ),
        line.len() == 0 || line[0] == '#' || (forall|i: int|
            0 <= i < line.len() ==> #[trigger] line[i] == ' ') ==> pins_of(
            line + seq!['\n'] + rest,
            number,
            pins,
        ) == pins_of(rest, number + 1, pins),
{
    reveal_strlit(" ");
    reveal_strlit("\n");
    assert(" "@ =~= seq![' ']);
    assert("\n"@ =~= seq!['\n']);
    lemma_pin_line(pin, rest);
    law_fingerprint_reads_back(pin.fingerprint);
    let text = line + seq!['\n'] + rest;
    lemma_until(text, '\n', line.len() as int);
    if line.len() > 0 {
        assert(text[line.len() - 1] == line.last());
    }
    assert(first_line(text) =~= line);
    assert(other_lines(text) =~= rest);
}

} // verus!
