//! Structured data: the elements `[id name="value" ...]` that follow the
//! header of a record.

use crate::codec::parse::same_text;
use crate::codec::parse::string;
use crate::codec::syslog::SyslogError;
use vstd::prelude::*;
use vstd::slice::slice_subrange;
use vstd::utf8::decode_utf8;
use vstd::utf8::valid_utf8;

verus! {

pub const SPACE: u8 = 0x20;

pub const QUOTE: u8 = 0x22;

pub const DASH: u8 = 0x2d;

pub const EQUALS: u8 = 0x3d;

pub const OPEN: u8 = 0x5b;

pub const BACKSLASH: u8 = 0x5c;

pub const CLOSE: u8 = 0x5d;

/// One element of structured data: its id and its parameters. In `params`
/// no name occurs twice.
#[derive(Clone, Debug, PartialEq, Eq)]
pub struct StructuredElement {
    pub id: String,
    pub params: Vec<(String, String)>,
}

/// What an element holds: its id, and a value for each parameter name.
pub struct ElementModel {
    pub id: Seq<char>,
    pub params: Map<Seq<char>, Seq<char>>,
}

/// The texts of a list of pairs.
pub open spec fn pairs_view(pairs: Seq<(String, String)>) -> Seq<(Seq<char>, Seq<char>)> {
    pairs.map_values(|p: (String, String)| (p.0@, p.1@))
}

/// The mapping that a list of pairs stands for: where a name occurs more
/// than once, its last value counts.
pub open spec fn pairs_map(pairs: Seq<(Seq<char>, Seq<char>)>) -> Map<Seq<char>, Seq<char>>
    decreases pairs.len(),
{
    if pairs.len() == 0 {
        Map::empty()
    } else {
        pairs_map(pairs.drop_last()).insert(pairs.last().0, pairs.last().1)
    }
}

/// No name occurs twice.
pub open spec fn unique_names(pairs: Seq<(Seq<char>, Seq<char>)>) -> bool {
    forall|i: int, j: int| 0 <= i < j < pairs.len() ==> pairs[i].0 != pairs[j].0
}

impl View for StructuredElement {
    type V = ElementModel;

    open spec fn view(&self) -> ElementModel {
        ElementModel { id: self.id@, params: pairs_map(pairs_view(self.params@)) }
    }
}

/// What a list of elements holds.
pub open spec fn elements_view(elements: Seq<StructuredElement>) -> Seq<ElementModel> {
    elements.map_values(|e: StructuredElement| e@)
}

/// A name is in the mapping exactly if some pair has it.
pub proof fn lemma_pairs_map_names(pairs: Seq<(Seq<char>, Seq<char>)>, name: Seq<char>)
    ensures
        pairs_map(pairs).contains_key(name) <==> exists|i: int|
            0 <= i < pairs.len() && #[trigger] pairs[i].0 == name,
    decreases pairs.len(),
{
    if pairs.len() > 0 {
        lemma_pairs_map_names(pairs.drop_last(), name);
        if pairs_map(pairs).contains_key(name) {
            if pairs.last().0 == name {
                assert(pairs[pairs.len() - 1].0 == name);
            } else {
                let i = choose|i: int|
                    0 <= i < pairs.drop_last().len() && #[trigger] pairs.drop_last()[i].0 == name;
                assert(pairs[i].0 == name);
            }
        }
        if exists|i: int| 0 <= i < pairs.len() && #[trigger] pairs[i].0 == name {
            let i = choose|i: int| 0 <= i < pairs.len() && #[trigger] pairs[i].0 == name;
            if i < pairs.len() - 1 {
                assert(pairs.drop_last()[i].0 == name);
            }
        }
    }
}

/// The mapping gives each name the value of the last pair that has it.
pub proof fn lemma_pairs_map_last(pairs: Seq<(Seq<char>, Seq<char>)>, at: int)
    requires
        0 <= at < pairs.len(),
        forall|k: int| at < k < pairs.len() ==> (#[trigger] pairs[k]).0 != pairs[at].0,
    ensures
        pairs_map(pairs).contains_key(pairs[at].0),
        pairs_map(pairs)[pairs[at].0] == pairs[at].1,
    decreases pairs.len(),
{
    if at < pairs.len() - 1 {
        assert forall|k: int| at < k < pairs.drop_last().len() implies (
        #[trigger] pairs.drop_last()[k]).0 != pairs.drop_last()[at].0 by {
            assert(pairs.drop_last()[k] == pairs[k]);
        }
        lemma_pairs_map_last(pairs.drop_last(), at);
        assert(pairs[pairs.len() - 1].0 != pairs[at].0);
    }
}

/// Among pairs with distinct names, a new value in place of an old one is
/// an insertion into the mapping.
pub proof fn lemma_pairs_map_update(
    pairs: Seq<(Seq<char>, Seq<char>)>,
    at: int,
    value: Seq<char>,
)
    requires
        unique_names(pairs),
        0 <= at < pairs.len(),
    ensures
        unique_names(pairs.update(at, (pairs[at].0, value))),
        pairs_map(pairs.update(at, (pairs[at].0, value))) =~= pairs_map(pairs).insert(
            pairs[at].0,
            value,
        ),
    decreases pairs.len(),
{
    let name = pairs[at].0;
    let updated = pairs.update(at, (name, value));
    if at == pairs.len() - 1 {
        assert(updated.drop_last() =~= pairs.drop_last());
    } else {
        lemma_pairs_map_update(pairs.drop_last(), at, value);
        assert(updated.drop_last() =~= pairs.drop_last().update(at, (name, value)));
        assert(pairs[at].0 != pairs[pairs.len() - 1].0);
    }
}

/// Whether no name occurs twice in a list of pairs.
pub fn has_unique_names(params: &Vec<(String, String)>) -> (ok: bool)
    ensures
        ok == unique_names(pairs_view(params@)),
{
    let mut later: usize = 0;
    while later < params.len()
        invariant
            later <= params.len(),
            forall|i: int, j: int|
                0 <= i < j < later ==> pairs_view(params@)[i].0 != pairs_view(params@)[j].0,
        decreases params.len() - later,
    {
        let mut earlier: usize = 0;
        while earlier < later
            invariant
                earlier <= later < params.len(),
                forall|i: int|
                    0 <= i < earlier ==> (#[trigger] pairs_view(params@)[i]).0 != pairs_view(
                        params@,
                    )[later as int].0,
            decreases later - earlier,
        {
            if same_text(params[earlier].0.as_str(), params[later].0.as_str()) {
                assert(pairs_view(params@)[earlier as int].0 == pairs_view(params@)[later as int].0);
                return false;
            }
            earlier = earlier + 1;
        }
        later = later + 1;
    }
    true
}

/// Whether every element of a list is well formed.
pub fn are_wf(elements: &Vec<StructuredElement>) -> (ok: bool)
    ensures
        ok == all_wf(elements@),
{
    let mut at: usize = 0;
    while at < elements.len()
        invariant
            at <= elements.len(),
            forall|i: int| 0 <= i < at ==> (#[trigger] elements@[i]).wf(),
        decreases elements.len() - at,
    {
        if !elements[at].is_wf() {
            return false;
        }
        at = at + 1;
    }
    true
}

impl StructuredElement {
    /// The id is not empty and no parameter name occurs twice.
    pub open spec fn wf(&self) -> bool {
        &&& self.id@.len() > 0
        &&& unique_names(pairs_view(self.params@))
    }

    /// Whether the element is well formed.
    pub fn is_wf(&self) -> (ok: bool)
        ensures
            ok == self.wf(),
    {
        !self.id.as_str().is_empty() && has_unique_names(&self.params)
    }

    /// The value of the parameter with a given name; where the name occurs
    /// more than once, the value that stands last.
    pub fn param(&self, name: &str) -> (value: Option<&String>)
        ensures
            value is Some <==> self@.params.contains_key(name@),
            value matches Some(v) ==> self@.params[name@] == v@,
    {
        let mut at: usize = self.params.len();
        while at > 0
            invariant
                at <= self.params.len(),
                forall|k: int|
                    at <= k < self.params.len() ==> (#[trigger] pairs_view(self.params@)[k]).0
                        != name@,
            decreases at,
        {
            at = at - 1;
            if same_text(self.params[at].0.as_str(), name) {
                proof {
                    lemma_pairs_map_last(pairs_view(self.params@), at as int);
                }
                return Some(&self.params[at].1);
            }
        }
        proof {
            lemma_pairs_map_names(pairs_view(self.params@), name@);
        }
        None
    }
}

/// Gives `name` the value `value` in a list of pairs with distinct names:
/// in place of the old value where the name is there, else at the end.
pub fn upsert(params: &mut Vec<(String, String)>, name: String, value: String)
    requires
        unique_names(pairs_view(old(params)@)),
    ensures
        unique_names(pairs_view(final(params)@)),
        pairs_map(pairs_view(final(params)@)) =~= pairs_map(pairs_view(old(params)@)).insert(
            name@,
            value@,
        ),
{
    let mut at: usize = 0;
    while at < params.len()
        invariant
            at <= params.len(),
            *params == *old(params),
            unique_names(pairs_view(params@)),
            forall|k: int| 0 <= k < at ==> (#[trigger] pairs_view(params@)[k]).0 != name@,
        decreases params.len() - at,
    {
        if params[at].0 == name {
            proof {
                lemma_pairs_map_update(pairs_view(params@), at as int, value@);
                assert(pairs_view(params@.update(at as int, (name, value))) =~= pairs_view(
                    params@,
                ).update(at as int, (name@, value@)));
            }
            params.set(at, (name, value));
            return ;
        }
        at = at + 1;
    }
    proof {
        let before = pairs_view(params@);
        let after = pairs_view(params@.push((name, value)));
        assert(after =~= before.push((name@, value@)));
        assert(after.drop_last() =~= before);
    }
    params.push((name, value));
}

/// A byte that may stand in an id or in a parameter name: any but the
/// space, the equals sign, the closing bracket and the double quote.
pub open spec fn is_name_byte(b: u8) -> bool {
    b != SPACE && b != EQUALS && b != CLOSE && b != QUOTE
}

/// Where the name that starts at `from` ends.
pub open spec fn name_end(s: Seq<u8>, from: int) -> int
    decreases s.len() - from,
{
    if 0 <= from < s.len() && is_name_byte(s[from]) {
        name_end(s, from + 1)
    } else {
        from
    }
}

/// A byte that a backslash may stand before in a parameter value.
pub open spec fn is_escapable(b: u8) -> bool {
    b == QUOTE || b == BACKSLASH || b == CLOSE
}

/// A value that was read, with more bytes in front of it.
pub open spec fn with_prefix(prefix: Seq<u8>, rest: Option<(Seq<u8>, int)>) -> Option<
    (Seq<u8>, int),
> {
    match rest {
        Some((value, end)) => Some((prefix + value, end)),
        None => None,
    }
}

/// The parameter value whose first byte, behind the opening quote, is at
/// `from`: its bytes with the escapes taken out, and the position behind the
/// closing quote. A backslash counts only before a quote, a backslash or a
/// closing bracket, and none of these three may stand alone.
pub open spec fn value_at(s: Seq<u8>, from: int) -> Option<(Seq<u8>, int)>
    decreases s.len() - from,
{
    if from < 0 || from >= s.len() {
        None
    } else if s[from] == QUOTE {
        Some((Seq::empty(), from + 1))
    } else if s[from] == CLOSE {
        None
    } else if s[from] == BACKSLASH {
        if from + 1 < s.len() && is_escapable(s[from + 1]) {
            with_prefix(seq![s[from + 1]], value_at(s, from + 2))
        } else {
            None
        }
    } else {
        with_prefix(seq![s[from]], value_at(s, from + 1))
    }
}

/// The parameter `name="value"` that starts at `from`, and the position
/// behind it.
pub open spec fn param_at(s: Seq<u8>, from: int) -> Option<((Seq<char>, Seq<char>), int)> {
    let name_to = name_end(s, from);
    let name = s.subrange(from, name_to);
    if 0 <= from < name_to && name_to + 1 < s.len() && s[name_to] == EQUALS && s[name_to + 1]
        == QUOTE && valid_utf8(name) {
        match value_at(s, name_to + 2) {
            Some((value, end)) => if valid_utf8(value) {
                Some(((decode_utf8(name), decode_utf8(value)), end))
            } else {
                None
            },
            None => None,
        }
    } else {
        None
    }
}

/// A list that was read, with more items in front of it.
pub open spec fn with_head<T>(head: Seq<T>, rest: Result<(Seq<T>, int), SyslogError>) -> Result<
    (Seq<T>, int),
    SyslogError,
> {
    match rest {
        Ok((items, end)) => Ok((head + items, end)),
        Err(kind) => Err(kind),
    }
}

/// The parameters of an element from `from` on, each with a space before
/// it, up to the closing bracket, and the position behind that bracket.
pub open spec fn params_at(s: Seq<u8>, from: int) -> Result<
    (Seq<(Seq<char>, Seq<char>)>, int),
    SyslogError,
>
    decreases s.len() - from,
{
    if from < 0 || from >= s.len() {
        Err(SyslogError::StructuredDataElement)
    } else if s[from] == CLOSE {
        Ok((Seq::empty(), from + 1))
    } else if s[from] == SPACE {
        match param_at(s, from + 1) {
            Some((pair, end)) => if from < end <= s.len() {
                with_head(seq![pair], params_at(s, end))
            } else {
                Err(SyslogError::StructuredDataParam)
            },
            None => Err(SyslogError::StructuredDataParam),
        }
    } else {
        Err(SyslogError::StructuredDataElement)
    }
}

/// The element that starts at `from` with its opening bracket, and the
/// position behind its closing bracket.
pub open spec fn element_at(s: Seq<u8>, from: int) -> Result<(ElementModel, int), SyslogError> {
    let id_to = name_end(s, from + 1);
    let id = s.subrange(from + 1, id_to);
    if 0 <= from < s.len() && s[from] == OPEN && from + 1 < id_to && valid_utf8(id) {
        match params_at(s, id_to) {
            Ok((pairs, end)) => Ok(
                (ElementModel { id: decode_utf8(id), params: pairs_map(pairs) }, end),
            ),
            Err(kind) => Err(kind),
        }
    } else {
        Err(SyslogError::StructuredDataElement)
    }
}

/// One element or more from `from` on, one behind the other, and the
/// position behind the last.
pub open spec fn elements_at(s: Seq<u8>, from: int) -> Result<
    (Seq<ElementModel>, int),
    SyslogError,
>
    decreases s.len() - from,
{
    match element_at(s, from) {
        Ok((element, end)) => if from < end < s.len() && s[end] == OPEN {
            with_head(seq![element], elements_at(s, end))
        } else {
            Ok((seq![element], end))
        },
        Err(kind) => Err(kind),
    }
}

/// The structured data that starts at `from`: a single dash for none, else
/// one element or more.
pub open spec fn structured_data_at(s: Seq<u8>, from: int) -> Result<
    (Option<Seq<ElementModel>>, int),
    SyslogError,
> {
    if 0 <= from < s.len() && s[from] == DASH {
        Ok((None, from + 1))
    } else {
        match elements_at(s, from) {
            Ok((elements, end)) => Ok((Some(elements), end)),
            Err(kind) => Err(kind),
        }
    }
}

/// What a list of elements holds, where there is one.
pub open spec fn optional_elements_view(elements: Option<Vec<StructuredElement>>) -> Option<
    Seq<ElementModel>,
> {
    match elements {
        Some(v) => Some(elements_view(v@)),
        None => None,
    }
}

/// Every element of a list is well formed.
pub open spec fn all_wf(elements: Seq<StructuredElement>) -> bool {
    forall|i: int| 0 <= i < elements.len() ==> (#[trigger] elements[i]).wf()
}

/// Text that is not empty has at least one character.
pub proof fn lemma_decode_nonempty(bytes: Seq<u8>)
    requires
        valid_utf8(bytes),
        bytes.len() > 0,
    ensures
        decode_utf8(bytes).len() > 0,
{
}

/// Finds the end of the name that starts at `from`.
pub fn scan_name(input: &[u8], from: usize) -> (end: usize)
    requires
        from <= input.len(),
    ensures
        end == name_end(input@, from as int),
        from <= end <= input.len(),
{
    let mut at: usize = from;
    while at < input.len() && input[at] != SPACE && input[at] != EQUALS && input[at] != CLOSE
        && input[at] != QUOTE
        invariant
            from <= at <= input.len(),
            name_end(input@, from as int) == name_end(input@, at as int),
        decreases input.len() - at,
    {
        at = at + 1;
    }
    at
}

/// Reads a parameter value from its first byte to its closing quote.
pub fn parse_value(input: &[u8], from: usize) -> (r: Option<(Vec<u8>, usize)>)
    requires
        from <= input.len(),
    ensures
        match value_at(input@, from as int) {
            Some((value, to)) => r matches Some((bytes, end)) && bytes@ == value && end == to
                && from < end <= input.len(),
            None => r is None,
        },
{
    let mut value: Vec<u8> = Vec::new();
    let mut at: usize = from;
    proof {
        assert(value_at(input@, from as int) == with_prefix(value@, value_at(input@, at as int)))
            by {
            match value_at(input@, at as int) {
                Some((v, e)) => {
                    assert(value@ + v =~= v);
                },
                None => {},
            }
        }
    }
    loop
        invariant
            from <= at <= input.len(),
            value_at(input@, from as int) == with_prefix(value@, value_at(input@, at as int)),
        decreases input.len() - at,
    {
        if at >= input.len() {
            return None;
        }
        let b = input[at];
        if b == QUOTE {
            proof {
                assert(value@ + Seq::<u8>::empty() =~= value@);
            }
            return Some((value, at + 1));
        }
        if b == CLOSE {
            return None;
        }
        let ghost before = value@;
        if b == BACKSLASH {
            if input.len() - at < 2 {
                return None;
            }
            let c = input[at + 1];
            if c != QUOTE && c != BACKSLASH && c != CLOSE {
                return None;
            }
            proof {
                match value_at(input@, at + 2) {
                    Some((v, e)) => {
                        assert(before + (seq![c] + v) =~= before.push(c) + v);
                    },
                    None => {},
                }
            }
            value.push(c);
            at = at + 2;
        } else {
            proof {
                match value_at(input@, at + 1) {
                    Some((v, e)) => {
                        assert(before + (seq![b] + v) =~= before.push(b) + v);
                    },
                    None => {},
                }
            }
            value.push(b);
            at = at + 1;
        }
    }
}

/// Reads one parameter, `name="value"`, from the first byte of its name.
pub fn parse_param(input: &[u8], from: usize) -> (r: Option<((String, String), usize)>)
    requires
        from <= input.len(),
    ensures
        match param_at(input@, from as int) {
            Some((pair, to)) => r matches Some((read, end)) && (read.0@, read.1@) == pair && end
                == to && from < end <= input.len(),
            None => r is None,
        },
{
    let name_to = scan_name(input, from);
    if name_to == from || input.len() - name_to < 2 {
        return None;
    }
    if input[name_to] != EQUALS || input[name_to + 1] != QUOTE {
        return None;
    }
    let name = match string(slice_subrange(input, from, name_to)) {
        Ok(name) => name,
        Err(_) => {
            return None;
        },
    };
    match parse_value(input, name_to + 2) {
        Some((bytes, end)) => match string(bytes.as_slice()) {
            Ok(value) => Some(((name.to_owned(), value.to_owned()), end)),
            Err(_) => None,
        },
        None => None,
    }
}

/// Reads the parameters of an element up to its closing bracket. Where a
/// name comes again, the later value replaces the earlier one.
pub fn parse_params(input: &[u8], from: usize) -> (r: Result<
    (Vec<(String, String)>, usize),
    SyslogError,
>)
    requires
        from <= input.len(),
    ensures
        match params_at(input@, from as int) {
            Ok((pairs, to)) => r matches Ok((read, end)) && end == to && from < end <= input.len()
                && unique_names(pairs_view(read@)) && pairs_map(pairs_view(read@)) == pairs_map(
                pairs,
            ),
            Err(kind) => r matches Err(e) && e == kind,
        },
{
    let mut params: Vec<(String, String)> = Vec::new();
    let mut at: usize = from;
    let ghost mut seen: Seq<(Seq<char>, Seq<char>)> = Seq::empty();
    proof {
        match params_at(input@, at as int) {
            Ok((items, e)) => {
                assert(seen + items =~= items);
            },
            Err(_) => {},
        }
    }
    loop
        invariant
            from <= at <= input.len(),
            params_at(input@, from as int) == with_head(seen, params_at(input@, at as int)),
            unique_names(pairs_view(params@)),
            pairs_map(pairs_view(params@)) == pairs_map(seen),
        decreases input.len() - at,
    {
        if at >= input.len() {
            return Err(SyslogError::StructuredDataElement);
        }
        let b = input[at];
        if b == CLOSE {
            proof {
                assert(seen + Seq::<(Seq<char>, Seq<char>)>::empty() =~= seen);
            }
            return Ok((params, at + 1));
        }
        if b != SPACE {
            return Err(SyslogError::StructuredDataElement);
        }
        match parse_param(input, at + 1) {
            Some((pair, end)) => {
                proof {
                    let p = (pair.0@, pair.1@);
                    match params_at(input@, end as int) {
                        Ok((items, e)) => {
                            assert(seen + (seq![p] + items) =~= seen.push(p) + items);
                        },
                        Err(_) => {},
                    }
                    assert(seen.push(p).drop_last() =~= seen);
                    seen = seen.push(p);
                }
                upsert(&mut params, pair.0, pair.1);
                at = end;
            },
            None => {
                return Err(SyslogError::StructuredDataParam);
            },
        }
    }
}

/// Reads one element from its opening bracket to its closing bracket.
pub fn parse_element(input: &[u8], from: usize) -> (r: Result<
    (StructuredElement, usize),
    SyslogError,
>)
    requires
        from <= input.len(),
    ensures
        match element_at(input@, from as int) {
            Ok((element, to)) => r matches Ok((read, end)) && read@ == element && read.wf() && end
                == to && from < end <= input.len(),
            Err(kind) => r matches Err(e) && e == kind,
        },
{
    if from >= input.len() || input[from] != OPEN {
        return Err(SyslogError::StructuredDataElement);
    }
    let id_to = scan_name(input, from + 1);
    if id_to == from + 1 {
        return Err(SyslogError::StructuredDataElement);
    }
    let id = match string(slice_subrange(input, from + 1, id_to)) {
        Ok(id) => id,
        Err(_) => {
            return Err(SyslogError::StructuredDataElement);
        },
    };
    proof {
        lemma_decode_nonempty(input@.subrange(from + 1, id_to as int));
    }
    match parse_params(input, id_to) {
        Ok((params, end)) => Ok((StructuredElement { id: id.to_owned(), params }, end)),
        Err(kind) => Err(kind),
    }
}

/// Reads one element or more, one behind the other.
pub fn parse_elements(input: &[u8], from: usize) -> (r: Result<
    (Vec<StructuredElement>, usize),
    SyslogError,
>)
    requires
        from <= input.len(),
    ensures
        match elements_at(input@, from as int) {
            Ok((elements, to)) => r matches Ok((read, end)) && elements_view(read@) == elements
                && all_wf(read@) && end == to && from < end <= input.len(),
            Err(kind) => r matches Err(e) && e == kind,
        },
{
    let mut elements: Vec<StructuredElement> = Vec::new();
    let mut at: usize = from;
    proof {
        match elements_at(input@, at as int) {
            Ok((items, e)) => {
                assert(elements_view(elements@) + items =~= items);
            },
            Err(_) => {},
        }
    }
    loop
        invariant
            from <= at <= input.len(),
            elements@.len() > 0 ==> from < at,
            all_wf(elements@),
            elements_at(input@, from as int) == with_head(
                elements_view(elements@),
                elements_at(input@, at as int),
            ),
        decreases input.len() - at,
    {
        let ghost before = elements_view(elements@);
        match parse_element(input, at) {
            Ok((element, end)) => {
                proof {
                    assert(elements_view(elements@.push(element)) =~= before.push(element@));
                }
                elements.push(element);
                if end < input.len() && input[end] == OPEN {
                    proof {
                        match elements_at(input@, end as int) {
                            Ok((items, e)) => {
                                assert(before + (seq![element@] + items) =~= before.push(element@)
                                    + items);
                            },
                            Err(_) => {},
                        }
                    }
                    at = end;
                } else {
                    proof {
                        assert(before + seq![element@] =~= before.push(element@));
                    }
                    return Ok((elements, end));
                }
            },
            Err(kind) => {
                return Err(kind);
            },
        }
    }
}

/// Reads the structured data of a record: a dash, or elements.
pub fn parse_structured_data(input: &[u8], from: usize) -> (r: Result<
    (Option<Vec<StructuredElement>>, usize),
    SyslogError,
>)
    requires
        from <= input.len(),
    ensures
        match structured_data_at(input@, from as int) {
            Ok((elements, to)) => r matches Ok((read, end)) && optional_elements_view(read)
                == elements && (read matches Some(v) ==> all_wf(v@)) && end == to && from < end
                <= input.len(),
            Err(kind) => r matches Err(e) && e == kind,
        },
{
    if from < input.len() && input[from] == DASH {
        return Ok((None, from + 1));
    }
    match parse_elements(input, from) {
        Ok((elements, end)) => Ok((Some(elements), end)),
        Err(kind) => Err(kind),
    }
}

/// In a parameter value a backslash before a quote, a backslash or a
/// closing bracket stands for that byte alone, and every byte that is none
/// of the three stands for itself.
pub proof fn lemma_value_escapes(s: Seq<u8>, from: int)
    requires
        0 <= from < s.len(),
    ensures
        s[from] == BACKSLASH && from + 1 < s.len() && is_escapable(s[from + 1]) ==> value_at(
            s,
            from,
        ) == with_prefix(seq![s[from + 1]], value_at(s, from + 2)),
        s[from] == BACKSLASH && !(from + 1 < s.len() && is_escapable(s[from + 1])) ==> value_at(
            s,
            from,
        ) is None,
        !is_escapable(s[from]) ==> value_at(s, from) == with_prefix(
            seq![s[from]],
            value_at(s, from + 1),
        ),
{
}

} // verus!
