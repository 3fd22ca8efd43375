//! Questions that game rules ask about the edgework.

use crate::edgework::{Edgework, EdgeworkModel};
use crate::ports::PortType;
use crate::serial::{last_digit_of, serial_letter};
use vstd::prelude::*;

verus! {

/// A question that can be asked about the edgework by game rules
#[derive(Debug, Copy, Clone, PartialEq, Eq, Structural)]
pub enum EdgeworkCondition {
    SerialStartsWithLetter,
    SerialOdd,
    HasEmptyPortPlate,
    PortPresent(PortType),
}

impl EdgeworkCondition {
    /// Whether `edgework` satisfies the condition.
    pub open spec fn holds(self, edgework: EdgeworkModel) -> bool {
        match self {
            EdgeworkCondition::SerialStartsWithLetter => serial_letter(edgework.serial[0]),
            EdgeworkCondition::SerialOdd => last_digit_of(edgework.serial) % 2 == 1,
            EdgeworkCondition::HasEmptyPortPlate => exists|i: int|
                0 <= i < edgework.plates.len() && #[trigger] edgework.plates[i] == Set::<
                    PortType,
                >::empty(),
            EdgeworkCondition::PortPresent(port) => exists|i: int|
                0 <= i < edgework.plates.len() && #[trigger] edgework.plates[i].contains(port),
        }
    }

    /// Returns true if `edgework` satisfies the condition
    pub fn evaluate(self, edgework: &Edgework) -> (r: bool)
        ensures
            r == self.holds(edgework@),
    {
        match self {
            EdgeworkCondition::SerialStartsWithLetter => edgework.serial_number.starts_with_letter(),
            EdgeworkCondition::SerialOdd => edgework.serial_number.last_digit() % 2 == 1,
            EdgeworkCondition::HasEmptyPortPlate => {
                let mut i: usize = 0;
                while i < edgework.port_plates.len()
                    invariant
                        self == EdgeworkCondition::HasEmptyPortPlate,
                        i <= edgework.port_plates@.len(),
                        forall|k: int|
                            0 <= k < i ==> #[trigger] edgework@.plates[k] != Set::<
                                PortType,
                            >::empty(),
                    decreases edgework.port_plates@.len() - i,
                {
                    if edgework.port_plates[i].is_empty() {
                        assert(edgework@.plates[i as int] == Set::<PortType>::empty());
                        return true;
                    }
                    i += 1;
                }
                false
            },
            EdgeworkCondition::PortPresent(port) => {
                let mut i: usize = 0;
                while i < edgework.port_plates.len()
                    invariant
                        self == EdgeworkCondition::PortPresent(port),
                        i <= edgework.port_plates@.len(),
                        forall|k: int| 0 <= k < i ==> !#[trigger] edgework@.plates[k].contains(port),
                    decreases edgework.port_plates@.len() - i,
                {
                    if edgework.port_plates[i].has(port) {
                        assert(edgework@.plates[i as int].contains(port));
                        return true;
                    }
                    i += 1;
                }
                false
            },
        }
    }

    /// The English sentence that states the condition.
    pub open spec fn sentence(self) -> Seq<char> {
        match self {
            EdgeworkCondition::SerialStartsWithLetter => "the serial number starts with a letter"@,
            EdgeworkCondition::SerialOdd => "the last digit of the serial number is odd"@,
            EdgeworkCondition::HasEmptyPortPlate => "there is an empty port plate present on the bomb"@,
            EdgeworkCondition::PortPresent(port) => "there is "@ + port.display_article() + " "@
                + port.display_name() + " port present on the bomb"@,
        }
    }

    /// The English sentence that states the condition.
    pub fn to_string(&self) -> (r: String)
        ensures
            r@ == self.sentence(),
    {
        match self {
            EdgeworkCondition::SerialStartsWithLetter => String::from_str(
                "the serial number starts with a letter",
            ),
            EdgeworkCondition::SerialOdd => String::from_str(
                "the last digit of the serial number is odd",
            ),
            EdgeworkCondition::HasEmptyPortPlate => String::from_str(
                "there is an empty port plate present on the bomb",
            ),
            EdgeworkCondition::PortPresent(port) => {
                let mut text = String::from_str("there is ");
                text.append(port.article());
                text.append(" ");
                text.append(port.name());
                text.append(" port present on the bomb");
                text
            },
        }
    }
}

} // verus!
