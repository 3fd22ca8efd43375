//! The edgework of a bomb, and the parser that reads it from a line of text.

use crate::indicators::no_indicators;
use crate::ports::in_one_group;
use crate::serial::{parsed_serial, valid_serial};
use crate::shape::{fields_of_line, line_fields, LineFields, LineFieldsModel};
use crate::text::{
    chars_of, copy_range, decimal_u32, parse_u32, split, split_text, text_is, texts, trim,
    trim_text,
};
use vstd::prelude::*;

pub use crate::condition::EdgeworkCondition;
pub use crate::indicators::{IndicatorCode, IndicatorState, IndicatorTable, UnrecognizedIndicator};
pub use crate::ports::{port_groups, PortPlate, PortSet, PortType, UnrecognizedPort};
pub use crate::serial::SerialNumber;

verus! {

/// Errors that parsing an edgework line can produce
#[derive(Debug, Clone, Copy, PartialEq, Eq, Structural)]
pub enum EdgeworkParseError {
    /// The string does not conform to the format
    FormatError,
    /// The combination of batteries and holders is impossible
    ImpossibleBatteries,
    /// The serial number is not valid
    MalformedSerial,
    /// A combination of ports on a port plate is impossible
    ImpossiblePortPlate,
    /// A section identified as port plates contains a port name that couldn't be recognized
    NotAPort,
    /// A section identified as indicators contains an unknown indicator
    NotAnIndicator,
}

/// Represents the set of widgets on the edges of a bomb.
#[derive(Debug, Clone, PartialEq)]
pub struct Edgework {
    pub serial_number: SerialNumber,
    pub port_plates: Vec<PortPlate>,
    pub indicators: IndicatorTable,
    pub aa_battery_pairs: u32,
    pub dcell_batteries: u32,
}

/// What an edgework holds, as mathematical values.
pub struct EdgeworkModel {
    pub serial: Seq<char>,
    pub plates: Seq<Set<PortType>>,
    pub indicators: Map<IndicatorCode, IndicatorState>,
    pub aa_battery_pairs: nat,
    pub dcell_batteries: nat,
}

/// The ports of each plate of a list.
pub open spec fn plate_sets(plates: Seq<PortPlate>) -> Seq<Set<PortType>> {
    Seq::new(plates.len(), |i: int| plates[i]@)
}

impl View for Edgework {
    type V = EdgeworkModel;

    open spec fn view(&self) -> EdgeworkModel {
        EdgeworkModel {
            serial: self.serial_number@,
            plates: plate_sets(self.port_plates@),
            indicators: self.indicators@,
            aa_battery_pairs: self.aa_battery_pairs as nat,
            dcell_batteries: self.dcell_batteries as nat,
        }
    }
}

/// The numbers of AA battery pairs and of D batteries on a bomb with `total`
/// batteries in `holders` holders, where a holder takes either one pair of AA
/// batteries or one D battery. There are none where some holder would stay
/// empty or some battery without a holder.
pub open spec fn battery_counts(total: nat, holders: nat) -> Option<(nat, nat)> {
    if holders <= total && total - holders <= holders {
        Some(((total - holders) as nat, (holders - (total - holders)) as nat))
    } else {
        None
    }
}

/// The battery counts are the only numbers of AA pairs and D batteries that fill
/// every holder and use every battery.
pub proof fn lemma_battery_counts_fill_holders(total: nat, holders: nat, pairs: nat, dcells: nat)
    ensures
        battery_counts(total, holders) == Some((pairs, dcells)) <==> pairs + dcells == holders
            && 2 * pairs + dcells == total,
{
}

/// Works out the numbers of AA battery pairs and of D batteries from the numbers
/// of batteries and of holders.
pub fn derive_batteries(total: u32, holders: u32) -> (r: Result<(u32, u32), EdgeworkParseError>)
    ensures
        match r {
            Ok((pairs, dcells)) => battery_counts(total as nat, holders as nat) == Some(
                (pairs as nat, dcells as nat),
            ),
            Err(error) => error == EdgeworkParseError::ImpossibleBatteries && battery_counts(
                total as nat,
                holders as nat,
            ) is None,
        },
{
    if total < holders {
        return Err(EdgeworkParseError::ImpossibleBatteries);
    }
    let pairs = total - holders;
    if holders < pairs {
        return Err(EdgeworkParseError::ImpossibleBatteries);
    }
    Ok((pairs, holders - pairs))
}

/// The ports that the first `upto` of `tokens` name.
pub open spec fn ports_named(tokens: Seq<Seq<char>>, upto: int) -> Set<PortType> {
    Set::new(
        |port: PortType|
            exists|i: int| 0 <= i < upto && #[trigger] PortType::named(tokens[i]) == Some(port),
    )
}

/// Whether one of the first `upto` of `tokens` names no port.
pub open spec fn some_token_unnamed(tokens: Seq<Seq<char>>, upto: int) -> bool {
    exists|i: int| 0 <= i < upto && #[trigger] PortType::named(tokens[i]) is None
}

/// The plate that one bracket group describes: no ports for `Empty`, else the
/// ports that its comma-separated tokens name, which must share a port group.
pub open spec fn plate_of_group(group: Seq<char>) -> Result<Set<PortType>, EdgeworkParseError> {
    let tokens = split(group, ", "@);
    let ports = ports_named(tokens, tokens.len() as int);
    if group == "Empty"@ {
        Ok(Set::empty())
    } else if some_token_unnamed(tokens, tokens.len() as int) {
        Err(EdgeworkParseError::NotAPort)
    } else if !in_one_group(ports) {
        Err(EdgeworkParseError::ImpossiblePortPlate)
    } else {
        Ok(ports)
    }
}

/// The plates that a list of bracket groups describes, in their order, or the
/// error of the first group that describes none.
pub open spec fn plates_of_groups(groups: Seq<Seq<char>>) -> Result<
    Seq<Set<PortType>>,
    EdgeworkParseError,
>
    decreases groups.len(),
{
    if groups.len() == 0 {
        Ok(Seq::empty())
    } else {
        match plates_of_groups(groups.drop_last()) {
            Err(error) => Err(error),
            Ok(plates) => match plate_of_group(groups.last()) {
                Err(error) => Err(error),
                Ok(ports) => Ok(plates.push(ports)),
            },
        }
    }
}

/// The indicator that one token describes: lit where a `*` goes before the code,
/// unlit where none does.
pub open spec fn indicator_of_token(token: Seq<char>) -> Result<
    (IndicatorCode, IndicatorState),
    EdgeworkParseError,
> {
    let lit = token.len() > 0 && token[0] == '*';
    let code = if lit {
        token.skip(1)
    } else {
        token
    };
    match IndicatorCode::named(code) {
        Some(code) => Ok(
            (
                code,
                if lit {
                    IndicatorState::Lit
                } else {
                    IndicatorState::Unlit
                },
            ),
        ),
        None => Err(EdgeworkParseError::NotAnIndicator),
    }
}

/// The table after the indicators that `tokens` describe were written into
/// `table` one after another, or the error of the first token that describes
/// none.
pub open spec fn indicators_after(
    tokens: Seq<Seq<char>>,
    table: Map<IndicatorCode, IndicatorState>,
) -> Result<Map<IndicatorCode, IndicatorState>, EdgeworkParseError>
    decreases tokens.len(),
{
    if tokens.len() == 0 {
        Ok(table)
    } else {
        match indicators_after(tokens.drop_last(), table) {
            Err(error) => Err(error),
            Ok(table) => match indicator_of_token(tokens.last()) {
                Err(error) => Err(error),
                Ok((code, state)) => Ok(table.insert(code, state)),
            },
        }
    }
}

/// The port plates and indicators read so far, as mathematical values.
pub struct WidgetsModel {
    pub plates: Seq<Set<PortType>>,
    pub indicators: Map<IndicatorCode, IndicatorState>,
}

/// The port plates and indicators read so far.
#[derive(Debug, Clone, PartialEq)]
pub struct Widgets {
    pub plates: Vec<PortPlate>,
    pub indicators: IndicatorTable,
}

impl View for Widgets {
    type V = WidgetsModel;

    open spec fn view(&self) -> WidgetsModel {
        WidgetsModel { plates: plate_sets(self.plates@), indicators: self.indicators@ }
    }
}

/// No port plate, and no indicator present.
pub open spec fn no_widgets() -> WidgetsModel {
    WidgetsModel { plates: Seq::empty(), indicators: no_indicators() }
}

/// Whether `section` lists port plates: without the whitespace around it, it
/// begins with `[` and ends with `]`.
pub open spec fn is_plate_section(section: Seq<char>) -> bool {
    let inner = trim(section);
    inner.len() >= 2 && inner.first() == '[' && inner.last() == ']'
}

/// The bracket groups of a section that lists port plates.
pub open spec fn groups_of_section(section: Seq<char>) -> Seq<Seq<char>> {
    let inner = trim(section);
    split(inner.subrange(1, inner.len() - 1), "] ["@)
}

/// The widgets after `section` was read: its plates come after those of
/// `widgets`, its indicators overwrite those of `widgets`.
pub open spec fn widgets_after_section(section: Seq<char>, widgets: WidgetsModel) -> Result<
    WidgetsModel,
    EdgeworkParseError,
> {
    if is_plate_section(section) {
        match plates_of_groups(groups_of_section(section)) {
            Err(error) => Err(error),
            Ok(plates) => Ok(
                WidgetsModel { plates: widgets.plates + plates, indicators: widgets.indicators },
            ),
        }
    } else {
        match indicators_after(split(section, " "@), widgets.indicators) {
            Err(error) => Err(error),
            Ok(table) => Ok(WidgetsModel { plates: widgets.plates, indicators: table }),
        }
    }
}

/// The widgets after `sections` were read one after another, or the error of the
/// first section that cannot be read.
pub open spec fn widgets_after_sections(sections: Seq<Seq<char>>, widgets: WidgetsModel) -> Result<
    WidgetsModel,
    EdgeworkParseError,
>
    decreases sections.len(),
{
    if sections.len() == 0 {
        Ok(widgets)
    } else {
        match widgets_after_sections(sections.drop_last(), widgets) {
            Err(error) => Err(error),
            Ok(widgets) => widgets_after_section(sections.last(), widgets),
        }
    }
}

/// The widgets that the middle of a line describes. Without a middle there are
/// none.
pub open spec fn widgets_of_middle(middle: Option<Seq<char>>) -> Result<
    WidgetsModel,
    EdgeworkParseError,
> {
    match middle {
        None => Ok(no_widgets()),
        Some(text) => widgets_after_sections(split(text, " // "@), no_widgets()),
    }
}

/// The battery counts that the two numbers of a line give.
pub open spec fn batteries_of_fields(batteries: Seq<char>, holders: Seq<char>) -> Option<
    (nat, nat),
> {
    match (decimal_u32(batteries), decimal_u32(holders)) {
        (Some(total), Some(holders)) => battery_counts(total as nat, holders as nat),
        _ => None,
    }
}

/// The edgework that the parts of a line describe. The battery counts are
/// checked first, then the serial number, then the sections of the middle in
/// their order; the first failure decides the error.
pub open spec fn parse_fields(fields: LineFieldsModel) -> Result<
    EdgeworkModel,
    EdgeworkParseError,
> {
    match batteries_of_fields(fields.batteries, fields.holders) {
        None => Err(EdgeworkParseError::ImpossibleBatteries),
        Some((pairs, dcells)) => match parsed_serial(fields.serial) {
            None => Err(EdgeworkParseError::MalformedSerial),
            Some(serial) => match widgets_of_middle(fields.middle) {
                Err(error) => Err(error),
                Ok(widgets) => Ok(
                    EdgeworkModel {
                        serial,
                        plates: widgets.plates,
                        indicators: widgets.indicators,
                        aa_battery_pairs: pairs,
                        dcell_batteries: dcells,
                    },
                ),
            },
        },
    }
}

/// The edgework that `line` describes, or the reason why it describes none.
pub open spec fn parse_line(line: Seq<char>) -> Result<EdgeworkModel, EdgeworkParseError> {
    match fields_of_line(line) {
        None => Err(EdgeworkParseError::FormatError),
        Some(fields) => parse_fields(fields),
    }
}

/// Whether every plate of a list holds ports of one group only.
pub open spec fn plates_fit(plates: Seq<Set<PortType>>) -> bool {
    forall|i: int| 0 <= i < plates.len() ==> in_one_group(#[trigger] plates[i])
}

/// Whether a table has a state for every indicator code.
pub open spec fn table_is_total(table: Map<IndicatorCode, IndicatorState>) -> bool {
    forall|code: IndicatorCode| table.dom().contains(code)
}

/// Whether an edgework is one that can be on a bomb: its serial number is valid,
/// each of its plates holds ports of one group only, and every indicator has a
/// state.
pub open spec fn valid_edgework(edgework: EdgeworkModel) -> bool {
    &&& valid_serial(edgework.serial)
    &&& plates_fit(edgework.plates)
    &&& table_is_total(edgework.indicators)
}

proof fn lemma_read_plates_fit(groups: Seq<Seq<char>>)
    ensures
        plates_of_groups(groups) matches Ok(plates) ==> plates.len() == groups.len() && plates_fit(
            plates,
        ),
    decreases groups.len(),
{
    if groups.len() > 0 {
        lemma_read_plates_fit(groups.drop_last());
    }
}

proof fn lemma_read_indicators_total(
    tokens: Seq<Seq<char>>,
    table: Map<IndicatorCode, IndicatorState>,
)
    requires
        table_is_total(table),
    ensures
        indicators_after(tokens, table) matches Ok(after) ==> table_is_total(after),
    decreases tokens.len(),
{
    if tokens.len() > 0 {
        lemma_read_indicators_total(tokens.drop_last(), table);
    }
}

proof fn lemma_read_sections_valid(sections: Seq<Seq<char>>, widgets: WidgetsModel)
    requires
        plates_fit(widgets.plates),
        table_is_total(widgets.indicators),
    ensures
        widgets_after_sections(sections, widgets) matches Ok(after) ==> plates_fit(after.plates)
            && table_is_total(after.indicators),
    decreases sections.len(),
{
    if sections.len() > 0 {
        lemma_read_sections_valid(sections.drop_last(), widgets);
        if let Ok(before) = widgets_after_sections(sections.drop_last(), widgets) {
            let section = sections.last();
            if is_plate_section(section) {
                lemma_read_plates_fit(groups_of_section(section));
            } else {
                lemma_read_indicators_total(split(section, " "@), before.indicators);
            }
        }
    }
}

/// Whatever edgework is read from the parts of a line is valid, has the serial
/// number that the line gives, and has battery counts that fill the holders that
/// the line gives with the batteries that it gives.
pub proof fn lemma_parsed_edgework_is_valid(fields: LineFieldsModel)
    ensures
        parse_fields(fields) matches Ok(edgework) ==> {
            &&& valid_edgework(edgework)
            &&& edgework.serial == fields.serial
            &&& decimal_u32(fields.batteries) matches Some(total)
            &&& decimal_u32(fields.holders) matches Some(holders)
            &&& edgework.aa_battery_pairs + edgework.dcell_batteries == holders
            &&& 2 * edgework.aa_battery_pairs + edgework.dcell_batteries == total
        },
{
    if let Some(text) = fields.middle {
        lemma_read_sections_valid(split(text, " // "@), no_widgets());
    }
}

/// A line of another shape than that of an edgework line is a format error, and
/// no other line is.
pub proof fn lemma_format_error_is_for_shape(line: Seq<char>)
    ensures
        fields_of_line(line) is None ==> parse_line(line) == Err::<
            EdgeworkModel,
            EdgeworkParseError,
        >(EdgeworkParseError::FormatError),
        fields_of_line(line) is Some ==> parse_line(line) != Err::<
            EdgeworkModel,
            EdgeworkParseError,
        >(EdgeworkParseError::FormatError),
{
    if let Some(fields) = fields_of_line(line) {
        lemma_fields_give_no_format_error(fields);
    }
}

proof fn lemma_plates_give_no_format_error(groups: Seq<Seq<char>>)
    ensures
        plates_of_groups(groups) matches Err(error) ==> error == EdgeworkParseError::NotAPort
            || error == EdgeworkParseError::ImpossiblePortPlate,
    decreases groups.len(),
{
    if groups.len() > 0 {
        lemma_plates_give_no_format_error(groups.drop_last());
    }
}

proof fn lemma_indicators_give_no_format_error(
    tokens: Seq<Seq<char>>,
    table: Map<IndicatorCode, IndicatorState>,
)
    ensures
        indicators_after(tokens, table) matches Err(error) ==> error
            == EdgeworkParseError::NotAnIndicator,
    decreases tokens.len(),
{
    if tokens.len() > 0 {
        lemma_indicators_give_no_format_error(tokens.drop_last(), table);
    }
}

proof fn lemma_sections_give_no_format_error(sections: Seq<Seq<char>>, widgets: WidgetsModel)
    ensures
        widgets_after_sections(sections, widgets) matches Err(error) ==> error
            == EdgeworkParseError::NotAPort || error == EdgeworkParseError::ImpossiblePortPlate
            || error == EdgeworkParseError::NotAnIndicator,
    decreases sections.len(),
{
    if sections.len() > 0 {
        lemma_sections_give_no_format_error(sections.drop_last(), widgets);
        if let Ok(before) = widgets_after_sections(sections.drop_last(), widgets) {
            let section = sections.last();
            if is_plate_section(section) {
                lemma_plates_give_no_format_error(groups_of_section(section));
            } else {
                lemma_indicators_give_no_format_error(split(section, " "@), before.indicators);
            }
        }
    }
}

/// The parts of a line never give a format error: that error is for the shape of
/// the line alone.
pub proof fn lemma_fields_give_no_format_error(fields: LineFieldsModel)
    ensures
        parse_fields(fields) != Err::<EdgeworkModel, EdgeworkParseError>(
            EdgeworkParseError::FormatError,
        ),
{
    if let Some(text) = fields.middle {
        lemma_sections_give_no_format_error(split(text, " // "@), no_widgets());
    }
}

/// The ports of a plate that may be an error.
pub open spec fn plate_result(r: Result<PortPlate, EdgeworkParseError>) -> Result<
    Set<PortType>,
    EdgeworkParseError,
> {
    match r {
        Ok(plate) => Ok(plate@),
        Err(error) => Err(error),
    }
}

/// The ports of the plates of a list that may be an error.
pub open spec fn plates_result(r: Result<Vec<PortPlate>, EdgeworkParseError>) -> Result<
    Seq<Set<PortType>>,
    EdgeworkParseError,
> {
    match r {
        Ok(plates) => Ok(plate_sets(plates@)),
        Err(error) => Err(error),
    }
}

/// The contents of a table that may be an error.
pub open spec fn table_result(r: Result<IndicatorTable, EdgeworkParseError>) -> Result<
    Map<IndicatorCode, IndicatorState>,
    EdgeworkParseError,
> {
    match r {
        Ok(table) => Ok(table@),
        Err(error) => Err(error),
    }
}

/// The contents of widgets that may be an error.
pub open spec fn widgets_result(r: Result<Widgets, EdgeworkParseError>) -> Result<
    WidgetsModel,
    EdgeworkParseError,
> {
    match r {
        Ok(widgets) => Ok(widgets@),
        Err(error) => Err(error),
    }
}

/// The contents of an edgework that may be an error.
pub open spec fn edgework_result(r: Result<Edgework, EdgeworkParseError>) -> Result<
    EdgeworkModel,
    EdgeworkParseError,
> {
    match r {
        Ok(edgework) => Ok(edgework@),
        Err(error) => Err(error),
    }
}

/// Reads the plate that one bracket group describes.
pub fn read_port_group(group: &[char]) -> (r: Result<PortPlate, EdgeworkParseError>)
    ensures
        plate_result(r) == plate_of_group(group@),
{
    if text_is(group, "Empty") {
        return Ok(PortPlate::empty());
    }
    let separator = chars_of(", ");
    let tokens = split_text(group, separator.as_slice());
    let ghost names = texts(tokens@);
    let mut ports = PortSet::empty();
    let mut i: usize = 0;
    assert(ports@ =~= ports_named(names, 0));
    while i < tokens.len()
        invariant
            i <= tokens@.len(),
            names == texts(tokens@),
            names == split(group@, ", "@),
            group@ != "Empty"@,
            ports@ == ports_named(names, i as int),
            !some_token_unnamed(names, i as int),
        decreases tokens@.len() - i,
    {
        assert(names[i as int] == tokens@[i as int]@);
        match PortType::from_chars(tokens[i].as_slice()) {
            Ok(port) => {
                let ghost before = ports@;
                ports = ports.with(port);
                proof {
                    assert forall|other: PortType|
                        before.insert(port).contains(other) <==> ports_named(
                            names,
                            i + 1,
                        ).contains(other) by {
                        if ports_named(names, i + 1).contains(other) {
                            let k = choose|k: int|
                                0 <= k < i + 1 && #[trigger] PortType::named(names[k]) == Some(
                                    other,
                                );
                            if k < i {
                                assert(ports_named(names, i as int).contains(other));
                            }
                        }
                        if before.contains(other) {
                            let k = choose|k: int|
                                0 <= k < i && #[trigger] PortType::named(names[k]) == Some(other);
                            assert(0 <= k < i + 1);
                        }
                    }
                    assert(ports@ =~= ports_named(names, i + 1));
                    if some_token_unnamed(names, i + 1) {
                        let k = choose|k: int|
                            0 <= k < i + 1 && #[trigger] PortType::named(names[k]) is None;
                        assert(k < i);
                    }
                }
            },
            Err(_) => {
                assert(PortType::named(names[i as int]) is None);
                assert(some_token_unnamed(names, names.len() as int));
                return Err(EdgeworkParseError::NotAPort);
            },
        }
        i += 1;
    }
    match PortPlate::new(ports) {
        Some(plate) => Ok(plate),
        None => Err(EdgeworkParseError::ImpossiblePortPlate),
    }
}

/// Reads the plates that a list of bracket groups describes.
pub fn read_port_groups(groups: &Vec<Vec<char>>) -> (r: Result<Vec<PortPlate>, EdgeworkParseError>)
    ensures
        plates_result(r) == plates_of_groups(texts(groups@)),
{
    let ghost all = texts(groups@);
    let mut plates: Vec<PortPlate> = Vec::new();
    let mut i: usize = 0;
    assert(all.take(0) =~= Seq::<Seq<char>>::empty());
    assert(plate_sets(plates@) =~= Seq::<Set<PortType>>::empty());
    while i < groups.len()
        invariant
            i <= groups@.len(),
            all == texts(groups@),
            plates_of_groups(all.take(i as int)) == Ok::<Seq<Set<PortType>>, EdgeworkParseError>(
                plate_sets(plates@),
            ),
        decreases groups@.len() - i,
    {
        let ghost longer = all.take(i + 1);
        assert(longer.drop_last() =~= all.take(i as int));
        assert(longer.last() == groups@[i as int]@);
        match read_port_group(groups[i].as_slice()) {
            Ok(plate) => {
                let ghost before = plates@;
                plates.push(plate);
                assert(plate_sets(plates@) =~= plate_sets(before).push(plate@));
            },
            Err(error) => {
                proof {
                    lemma_plates_error_stays(all, i + 1);
                }
                return Err(error);
            },
        }
        i += 1;
    }
    assert(all.take(i as int) =~= all);
    Ok(plates)
}

/// Once a group fails, the list fails with that group's error, whatever follows.
pub proof fn lemma_plates_error_stays(groups: Seq<Seq<char>>, upto: int)
    requires
        0 <= upto <= groups.len(),
        plates_of_groups(groups.take(upto)) is Err,
    ensures
        plates_of_groups(groups) == plates_of_groups(groups.take(upto)),
    decreases groups.len(),
{
    if upto < groups.len() {
        assert(groups.drop_last().take(upto) =~= groups.take(upto));
        lemma_plates_error_stays(groups.drop_last(), upto);
    } else {
        assert(groups.take(upto) =~= groups);
    }
}

/// Reads the indicator that one token describes.
pub fn read_indicator(token: &[char]) -> (r: Result<
    (IndicatorCode, IndicatorState),
    EdgeworkParseError,
>)
    ensures
        r == indicator_of_token(token@),
{
    let lit = token.len() > 0 && token[0] == '*';
    let parsed = if lit {
        let code = copy_range(token, 1, token.len());
        assert(code@ =~= token@.skip(1));
        IndicatorCode::from_chars(code.as_slice())
    } else {
        IndicatorCode::from_chars(token)
    };
    match parsed {
        Ok(code) => Ok(
            (
                code,
                if lit {
                    IndicatorState::Lit
                } else {
                    IndicatorState::Unlit
                },
            ),
        ),
        Err(_) => Err(EdgeworkParseError::NotAnIndicator),
    }
}

/// Once a token fails, the list fails with that token's error, whatever follows.
pub proof fn lemma_indicators_error_stays(
    tokens: Seq<Seq<char>>,
    table: Map<IndicatorCode, IndicatorState>,
    upto: int,
)
    requires
        0 <= upto <= tokens.len(),
        indicators_after(tokens.take(upto), table) is Err,
    ensures
        indicators_after(tokens, table) == indicators_after(tokens.take(upto), table),
    decreases tokens.len(),
{
    if upto < tokens.len() {
        assert(tokens.drop_last().take(upto) =~= tokens.take(upto));
        lemma_indicators_error_stays(tokens.drop_last(), table, upto);
    } else {
        assert(tokens.take(upto) =~= tokens);
    }
}

/// Writes the indicators that `tokens` describe into `table`, one after another.
pub fn read_indicators(tokens: &Vec<Vec<char>>, table: IndicatorTable) -> (r: Result<
    IndicatorTable,
    EdgeworkParseError,
>)
    ensures
        table_result(r) == indicators_after(texts(tokens@), table@),
{
    let ghost all = texts(tokens@);
    let mut current = table;
    let mut i: usize = 0;
    assert(all.take(0) =~= Seq::<Seq<char>>::empty());
    while i < tokens.len()
        invariant
            i <= tokens@.len(),
            all == texts(tokens@),
            indicators_after(all.take(i as int), table@) == Ok::<
                Map<IndicatorCode, IndicatorState>,
                EdgeworkParseError,
            >(current@),
        decreases tokens@.len() - i,
    {
        let ghost longer = all.take(i + 1);
        assert(longer.drop_last() =~= all.take(i as int));
        assert(longer.last() == tokens@[i as int]@);
        match read_indicator(tokens[i].as_slice()) {
            Ok((code, state)) => {
                current.set(code, state);
            },
            Err(error) => {
                proof {
                    lemma_indicators_error_stays(all, table@, i + 1);
                }
                return Err(error);
            },
        }
        i += 1;
    }
    assert(all.take(i as int) =~= all);
    Ok(current)
}

/// Reads one section of the middle of a line into `widgets`.
pub fn read_section(section: &[char], widgets: Widgets) -> (r: Result<Widgets, EdgeworkParseError>)
    ensures
        widgets_result(r) == widgets_after_section(section@, widgets@),
{
    let inner = trim_text(section);
    let n = inner.len();
    if n >= 2 && inner[0] == '[' && inner[n - 1] == ']' {
        let body = copy_range(inner.as_slice(), 1, n - 1);
        let separator = chars_of("] [");
        let groups = split_text(body.as_slice(), separator.as_slice());
        match read_port_groups(&groups) {
            Ok(mut plates) => {
                let Widgets { plates: mut all, indicators } = widgets;
                let ghost before = all@;
                let ghost added = plates@;
                all.append(&mut plates);
                assert(plate_sets(all@) =~= plate_sets(before) + plate_sets(added));
                Ok(Widgets { plates: all, indicators })
            },
            Err(error) => Err(error),
        }
    } else {
        let separator = chars_of(" ");
        let tokens = split_text(section, separator.as_slice());
        match read_indicators(&tokens, widgets.indicators) {
            Ok(table) => Ok(Widgets { plates: widgets.plates, indicators: table }),
            Err(error) => Err(error),
        }
    }
}

/// Once a section fails, the list fails with that section's error, whatever
/// follows.
pub proof fn lemma_sections_error_stays(
    sections: Seq<Seq<char>>,
    widgets: WidgetsModel,
    upto: int,
)
    requires
        0 <= upto <= sections.len(),
        widgets_after_sections(sections.take(upto), widgets) is Err,
    ensures
        widgets_after_sections(sections, widgets) == widgets_after_sections(
            sections.take(upto),
            widgets,
        ),
    decreases sections.len(),
{
    if upto < sections.len() {
        assert(sections.drop_last().take(upto) =~= sections.take(upto));
        lemma_sections_error_stays(sections.drop_last(), widgets, upto);
    } else {
        assert(sections.take(upto) =~= sections);
    }
}

/// Reads the widgets that the middle of a line describes.
pub fn read_middle(middle: &[char]) -> (r: Result<Widgets, EdgeworkParseError>)
    ensures
        widgets_result(r) == widgets_after_sections(split(middle@, " // "@), no_widgets()),
{
    let separator = chars_of(" // ");
    let sections = split_text(middle, separator.as_slice());
    let ghost all = texts(sections@);
    let mut widgets = Widgets { plates: Vec::new(), indicators: IndicatorTable::new() };
    assert(plate_sets(widgets.plates@) =~= Seq::<Set<PortType>>::empty());
    assert(all.take(0) =~= Seq::<Seq<char>>::empty());
    let mut i: usize = 0;
    while i < sections.len()
        invariant
            i <= sections@.len(),
            all == texts(sections@),
            all == split(middle@, " // "@),
            widgets_after_sections(all.take(i as int), no_widgets()) == Ok::<
                WidgetsModel,
                EdgeworkParseError,
            >(widgets@),
        decreases sections@.len() - i,
    {
        let ghost longer = all.take(i + 1);
        assert(longer.drop_last() =~= all.take(i as int));
        assert(longer.last() == sections@[i as int]@);
        match read_section(sections[i].as_slice(), widgets) {
            Ok(next) => {
                widgets = next;
            },
            Err(error) => {
                proof {
                    lemma_sections_error_stays(all, no_widgets(), i + 1);
                }
                return Err(error);
            },
        }
        i += 1;
    }
    assert(all.take(i as int) =~= all);
    Ok(widgets)
}

impl Edgework {
    /// Builds the edgework that the parts of a line describe. The battery counts
    /// are checked first, then the serial number, then the sections of the middle
    /// in their order; the first failure decides the error.
    pub fn from_fields(fields: &LineFields) -> (r: Result<Edgework, EdgeworkParseError>)
        ensures
            edgework_result(r) == parse_fields(fields@),
    {
        let battery_text = chars_of(fields.batteries.as_str());
        let holder_text = chars_of(fields.holders.as_str());
        let battery_count = match parse_u32(battery_text.as_slice()) {
            Some(count) => count,
            None => {
                return Err(EdgeworkParseError::ImpossibleBatteries);
            },
        };
        let holder_count = match parse_u32(holder_text.as_slice()) {
            Some(count) => count,
            None => {
                return Err(EdgeworkParseError::ImpossibleBatteries);
            },
        };
        let (aa_battery_pairs, dcell_batteries) = match derive_batteries(
            battery_count,
            holder_count,
        ) {
            Ok(counts) => counts,
            Err(error) => {
                return Err(error);
            },
        };
        let serial_number = match SerialNumber::from_str(fields.serial.as_str()) {
            Ok(number) => number,
            Err(_) => {
                return Err(EdgeworkParseError::MalformedSerial);
            },
        };
        let widgets = match &fields.middle {
            Some(text) => {
                let middle = chars_of(text.as_str());
                match read_middle(middle.as_slice()) {
                    Ok(widgets) => widgets,
                    Err(error) => {
                        return Err(error);
                    },
                }
            },
            None => {
                let widgets = Widgets { plates: Vec::new(), indicators: IndicatorTable::new() };
                assert(plate_sets(widgets.plates@) =~= Seq::<Set<PortType>>::empty());
                widgets
            },
        };
        Ok(
            Edgework {
                serial_number,
                port_plates: widgets.plates,
                indicators: widgets.indicators,
                aa_battery_pairs,
                dcell_batteries,
            },
        )
    }

    /// Parse a Twitch Plays-style edgework string, for example:
    /// `2B 1H // *FRK CAR // [Serial] [DVI, RJ45] [Empty] // PG3NL1`
    pub fn from_str(input: &str) -> (r: Result<Edgework, EdgeworkParseError>)
        ensures
            edgework_result(r) == parse_line(input@),
    {
        match line_fields(input) {
            Some(fields) => Edgework::from_fields(&fields),
            None => Err(EdgeworkParseError::FormatError),
        }
    }
}

impl std::str::FromStr for Edgework {
    type Err = EdgeworkParseError;

    fn from_str(input: &str) -> (r: Result<Edgework, EdgeworkParseError>)
        ensures
            edgework_result(r) == parse_line(input@),
    {
        Edgework::from_str(input)
    }
}

} // verus!
