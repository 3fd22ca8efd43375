//! Port types, sets of them, and the port plates that hold them.

use crate::text::{chars_of, text_is};
use vstd::prelude::*;

verus! {

/// A kind of port that can be present on a bomb.
#[derive(Clone, Copy, Debug, PartialEq, Eq, Hash, Structural)]
pub enum PortType {
    Serial,
    Parallel,
    DVI,
    PS2,
    RJ45,
    StereoRCA,
}

/// The failure to read a port name.
#[derive(Clone, Copy, Debug, PartialEq, Eq, Structural)]
pub struct UnrecognizedPort;

impl PortType {
    /// Every port type, in the order of their declaration.
    pub fn all() -> (ports: [PortType; 6])
        ensures
            forall|port: PortType| ports@.contains(port),
            ports@.no_duplicates(),
    {
        let ports = [
            PortType::Serial,
            PortType::Parallel,
            PortType::DVI,
            PortType::PS2,
            PortType::RJ45,
            PortType::StereoRCA,
        ];
        proof {
            assert forall|port: PortType| ports@.contains(port) by {
                let i: int = match port {
                    PortType::Serial => 0,
                    PortType::Parallel => 1,
                    PortType::DVI => 2,
                    PortType::PS2 => 3,
                    PortType::RJ45 => 4,
                    PortType::StereoRCA => 5,
                };
                assert(ports@[i] == port);
            }
        }
        ports
    }

    /// The bit that stands for this port in a `PortSet`.
    pub open spec fn bit(self) -> u8 {
        match self {
            PortType::Serial => 1,
            PortType::Parallel => 2,
            PortType::DVI => 4,
            PortType::PS2 => 8,
            PortType::RJ45 => 16,
            PortType::StereoRCA => 32,
        }
    }

    /// The bit that stands for this port in a `PortSet`.
    pub fn mask(self) -> (m: u8)
        ensures
            m == self.bit(),
    {
        match self {
            PortType::Serial => 1,
            PortType::Parallel => 2,
            PortType::DVI => 4,
            PortType::PS2 => 8,
            PortType::RJ45 => 16,
            PortType::StereoRCA => 32,
        }
    }

    /// The name under which this port is shown.
    pub open spec fn display_name(self) -> Seq<char> {
        match self {
            PortType::Serial => "serial"@,
            PortType::Parallel => "parallel"@,
            PortType::DVI => "DVI-D"@,
            PortType::PS2 => "PS/2"@,
            PortType::RJ45 => "RJ-45"@,
            PortType::StereoRCA => "stereo RCA"@,
        }
    }

    /// The name under which this port is shown.
    pub fn name(self) -> (r: &'static str)
        ensures
            r@ == self.display_name(),
    {
        match self {
            PortType::Serial => "serial",
            PortType::Parallel => "parallel",
            PortType::DVI => "DVI-D",
            PortType::PS2 => "PS/2",
            PortType::RJ45 => "RJ-45",
            PortType::StereoRCA => "stereo RCA",
        }
    }

    /// The name under which this port is shown, as an owned string.
    pub fn to_string(&self) -> (r: String)
        ensures
            r@ == self.display_name(),
    {
        String::from_str(self.name())
    }

    /// The indefinite article that goes before this port's name.
    pub open spec fn display_article(self) -> Seq<char> {
        match self {
            PortType::RJ45 => "an"@,
            _ => "a"@,
        }
    }

    /// The indefinite article that goes before this port's name.
    pub fn article(self) -> (r: &'static str)
        ensures
            r@ == self.display_article(),
    {
        match self {
            PortType::RJ45 => "an",
            _ => "a",
        }
    }

    /// The port that `token` names, if any. Names are matched exactly.
    pub open spec fn named(token: Seq<char>) -> Option<PortType> {
        if token == "serial"@ || token == "Serial"@ {
            Some(PortType::Serial)
        } else if token == "parallel"@ || token == "Parallel"@ {
            Some(PortType::Parallel)
        } else if token == "DVI-D"@ || token == "DVI"@ {
            Some(PortType::DVI)
        } else if token == "PS/2"@ || token == "PS2"@ {
            Some(PortType::PS2)
        } else if token == "RJ-45"@ || token == "RJ45"@ || token == "RJ"@ {
            Some(PortType::RJ45)
        } else if token == "stereo RCA"@ || token == "Stereo RCA"@ || token == "StereoRCA"@
            || token == "RCA"@ {
            Some(PortType::StereoRCA)
        } else {
            None
        }
    }

    /// Reads a port name given as characters.
    pub fn from_chars(token: &[char]) -> (r: Result<PortType, UnrecognizedPort>)
        ensures
            r == match PortType::named(token@) {
                Some(port) => Ok::<PortType, UnrecognizedPort>(port),
                None => Err(UnrecognizedPort),
            },
    {
        if text_is(token, "serial") || text_is(token, "Serial") {
            Ok(PortType::Serial)
        } else if text_is(token, "parallel") || text_is(token, "Parallel") {
            Ok(PortType::Parallel)
        } else if text_is(token, "DVI-D") || text_is(token, "DVI") {
            Ok(PortType::DVI)
        } else if text_is(token, "PS/2") || text_is(token, "PS2") {
            Ok(PortType::PS2)
        } else if text_is(token, "RJ-45") || text_is(token, "RJ45") || text_is(token, "RJ") {
            Ok(PortType::RJ45)
        } else if text_is(token, "stereo RCA") || text_is(token, "Stereo RCA") || text_is(
            token,
            "StereoRCA",
        ) || text_is(token, "RCA") {
            Ok(PortType::StereoRCA)
        } else {
            Err(UnrecognizedPort)
        }
    }

    /// Reads a port name.
    pub fn from_str(token: &str) -> (r: Result<PortType, UnrecognizedPort>)
        ensures
            r == match PortType::named(token@) {
                Some(port) => Ok::<PortType, UnrecognizedPort>(port),
                None => Err(UnrecognizedPort),
            },
    {
        let chars = chars_of(token);
        PortType::from_chars(chars.as_slice())
    }
}

impl std::str::FromStr for PortType {
    type Err = UnrecognizedPort;

    fn from_str(token: &str) -> (r: Result<PortType, UnrecognizedPort>)
        ensures
            r == match PortType::named(token@) {
                Some(port) => Ok::<PortType, UnrecognizedPort>(port),
                None => Err(UnrecognizedPort),
            },
    {
        PortType::from_str(token)
    }
}

/// The ports that may share a plate with a serial port.
pub open spec fn group_a() -> Set<PortType> {
    set![PortType::Serial, PortType::Parallel]
}

/// The ports that may share a plate with a DVI-D port.
pub open spec fn group_b() -> Set<PortType> {
    set![PortType::DVI, PortType::PS2, PortType::RJ45, PortType::StereoRCA]
}

/// Whether all of `ports` belong to one port group.
pub open spec fn in_one_group(ports: Set<PortType>) -> bool {
    ports.subset_of(group_a()) || ports.subset_of(group_b())
}

/// A set of port types.
#[derive(Clone, Copy, Debug, PartialEq, Eq)]
pub struct PortSet {
    bits: u8,
}

impl View for PortSet {
    type V = Set<PortType>;

    closed spec fn view(&self) -> Set<PortType> {
        Set::new(|port: PortType| self.bits & port.bit() == port.bit())
    }
}

proof fn lemma_bits_empty(bits: u8)
    requires
        bits < 64,
    ensures
        bits == 0 <==> forall|port: PortType| bits & port.bit() != port.bit(),
{
    assert(bits == 0 <==> (bits & 1 != 1 && bits & 2 != 2 && bits & 4 != 4 && bits & 8 != 8 && bits
        & 16 != 16 && bits & 32 != 32)) by (bit_vector)
        requires
            bits < 64,
    ;
    if bits != 0 {
        assert(bits & PortType::Serial.bit() == 1 || bits & PortType::Parallel.bit() == 2 || bits
            & PortType::DVI.bit() == 4 || bits & PortType::PS2.bit() == 8 || bits
            & PortType::RJ45.bit() == 16 || bits & PortType::StereoRCA.bit() == 32);
    } else {
        assert forall|port: PortType| bits & port.bit() != port.bit() by {
            assert(port.bit() == 1 || port.bit() == 2 || port.bit() == 4 || port.bit() == 8
                || port.bit() == 16 || port.bit() == 32);
        }
    }
}

proof fn lemma_bits_union(a: u8, b: u8, port: PortType)
    requires
        a < 64,
        b < 64,
    ensures
        (a | b) < 64,
        (a | b) & port.bit() == port.bit() <==> (a & port.bit() == port.bit() || b & port.bit()
            == port.bit()),
{
    let q = port.bit();
    assert(q == 1 || q == 2 || q == 4 || q == 8 || q == 16 || q == 32);
    assert((a | b) < 64 && ((a | b) & q == q <==> (a & q == q || b & q == q))) by (bit_vector)
        requires
            a < 64,
            b < 64,
            q == 1 || q == 2 || q == 4 || q == 8 || q == 16 || q == 32,
    ;
}

proof fn lemma_bits_single(port: PortType, other: PortType)
    ensures
        port.bit() < 64,
        port.bit() & other.bit() == other.bit() <==> port == other,
{
    let p = port.bit();
    let q = other.bit();
    assert(p == 1 || p == 2 || p == 4 || p == 8 || p == 16 || p == 32);
    assert(q == 1 || q == 2 || q == 4 || q == 8 || q == 16 || q == 32);
    assert(p & q == q <==> p == q) by (bit_vector)
        requires
            p == 1 || p == 2 || p == 4 || p == 8 || p == 16 || p == 32,
            q == 1 || q == 2 || q == 4 || q == 8 || q == 16 || q == 32,
    ;
}

proof fn lemma_bits_subset(a: u8, b: u8)
    requires
        a < 64,
        b < 64,
    ensures
        a & b == b <==> forall|port: PortType|
            b & port.bit() == port.bit() ==> a & port.bit() == port.bit(),
{
    assert(a & b == b <==> ((b & 1 == 1 ==> a & 1 == 1) && (b & 2 == 2 ==> a & 2 == 2) && (b & 4
        == 4 ==> a & 4 == 4) && (b & 8 == 8 ==> a & 8 == 8) && (b & 16 == 16 ==> a & 16 == 16) && (b
        & 32 == 32 ==> a & 32 == 32))) by (bit_vector)
        requires
            a < 64,
            b < 64,
    ;
    if a & b == b {
        assert forall|port: PortType| b & port.bit() == port.bit() implies a & port.bit()
            == port.bit() by {
            assert(port.bit() == 1 || port.bit() == 2 || port.bit() == 4 || port.bit() == 8
                || port.bit() == 16 || port.bit() == 32);
        }
    } else {
        assert(!(b & PortType::Serial.bit() == 1 ==> a & PortType::Serial.bit() == 1) || !(b
            & PortType::Parallel.bit() == 2 ==> a & PortType::Parallel.bit() == 2) || !(b
            & PortType::DVI.bit() == 4 ==> a & PortType::DVI.bit() == 4) || !(b
            & PortType::PS2.bit() == 8 ==> a & PortType::PS2.bit() == 8) || !(b
            & PortType::RJ45.bit() == 16 ==> a & PortType::RJ45.bit() == 16) || !(b
            & PortType::StereoRCA.bit() == 32 ==> a & PortType::StereoRCA.bit() == 32));
    }
}

impl PortSet {
    #[verifier::type_invariant]
    spec fn only_known_bits(self) -> bool {
        self.bits < 64
    }

    /// The set without ports.
    pub fn empty() -> (r: PortSet)
        ensures
            r@ == Set::<PortType>::empty(),
    {
        let r = PortSet { bits: 0 };
        proof {
            lemma_bits_empty(0);
            assert(r@ =~= Set::<PortType>::empty());
        }
        r
    }

    /// The set that holds `port` alone.
    pub fn only(port: PortType) -> (r: PortSet)
        ensures
            r@ == set![port],
    {
        let r = PortSet { bits: port.mask() };
        proof {
            assert forall|other: PortType| r@.contains(other) <==> other == port by {
                lemma_bits_single(port, other);
            }
            lemma_bits_single(port, port);
            assert(r@ =~= set![port]);
        }
        r
    }

    /// The ports of either set.
    pub fn union(self, other: PortSet) -> (r: PortSet)
        ensures
            r@ == self@.union(other@),
    {
        proof {
            use_type_invariant(self);
            use_type_invariant(other);
            lemma_bits_union(self.bits, other.bits, PortType::Serial);
        }
        let r = PortSet { bits: self.bits | other.bits };
        proof {
            assert forall|port: PortType|
                r@.contains(port) <==> (self@.contains(port) || other@.contains(port)) by {
                lemma_bits_union(self.bits, other.bits, port);
            }
            assert(r@ =~= self@.union(other@));
        }
        r
    }

    /// This set and `port`.
    pub fn with(self, port: PortType) -> (r: PortSet)
        ensures
            r@ == self@.insert(port),
    {
        let r = self.union(PortSet::only(port));
        assert(r@ =~= self@.insert(port));
        r
    }

    /// Whether the set holds no port.
    pub fn is_empty(self) -> (r: bool)
        ensures
            r == (self@ == Set::<PortType>::empty()),
    {
        proof {
            use_type_invariant(self);
            lemma_bits_empty(self.bits);
            if self.bits == 0 {
                assert(self@ =~= Set::<PortType>::empty());
            } else {
                let port = choose|port: PortType| self.bits & port.bit() == port.bit();
                assert(self@.contains(port));
            }
        }
        self.bits == 0
    }

    /// Whether the set holds `port`.
    pub fn has(self, port: PortType) -> (r: bool)
        ensures
            r == self@.contains(port),
    {
        let m = port.mask();
        self.bits & m == m
    }

    /// Whether the set holds every port of `other`.
    pub fn contains(self, other: PortSet) -> (r: bool)
        ensures
            r == other@.subset_of(self@),
    {
        proof {
            use_type_invariant(self);
            use_type_invariant(other);
            lemma_bits_subset(self.bits, other.bits);
            if self.bits & other.bits == other.bits {
                assert forall|port: PortType| other@.contains(port) implies self@.contains(
                    port,
                ) by {}
            } else {
                let port = choose|port: PortType|
                    other.bits & port.bit() == port.bit() && self.bits & port.bit() != port.bit();
                assert(other@.contains(port) && !self@.contains(port));
            }
        }
        self.bits & other.bits == other.bits
    }
}

/// The two port groups. All ports on a port plate must be from the same group,
/// because they won't fit otherwise.
pub fn port_groups() -> (groups: [PortSet; 2])
    ensures
        groups[0]@ == group_a(),
        groups[1]@ == group_b(),
{
    let a = PortSet::empty().with(PortType::Serial).with(PortType::Parallel);
    let b = PortSet::empty().with(PortType::DVI).with(PortType::PS2).with(PortType::RJ45).with(
        PortType::StereoRCA,
    );
    assert(a@ =~= group_a());
    assert(b@ =~= group_b());
    [a, b]
}

/// The port plate widget.
#[derive(Debug, Copy, Clone, PartialEq)]
pub struct PortPlate {
    ports: PortSet,
}

impl View for PortPlate {
    type V = Set<PortType>;

    closed spec fn view(&self) -> Set<PortType> {
        self.ports@
    }
}

impl PortPlate {
    #[verifier::type_invariant]
    spec fn fits(self) -> bool {
        in_one_group(self.ports@)
    }

    /// Create a new PortPlate object, after making sure that all ports belong to a
    /// single port group.
    pub fn new(ports: PortSet) -> (r: Option<PortPlate>)
        ensures
            r is Some <==> in_one_group(ports@),
            r matches Some(plate) ==> plate@ == ports@,
    {
        let groups = port_groups();
        if groups[0].contains(ports) || groups[1].contains(ports) {
            Some(PortPlate { ports })
        } else {
            None
        }
    }

    /// Create an empty port plate
    pub fn empty() -> (r: PortPlate)
        ensures
            r@ == Set::<PortType>::empty(),
    {
        PortPlate { ports: PortSet::empty() }
    }

    /// Returns true if and only if there are no ports on this port plate
    pub fn is_empty(self) -> (r: bool)
        ensures
            r == (self@ == Set::<PortType>::empty()),
    {
        self.ports.is_empty()
    }

    /// Returns true if and only if `port` is present on this port plate
    pub fn has(self, port: PortType) -> (r: bool)
        ensures
            r == self@.contains(port),
    {
        self.ports.has(port)
    }

    /// The ports on this plate, which all belong to one port group.
    pub fn ports(self) -> (r: PortSet)
        ensures
            r@ == self@,
            in_one_group(r@),
    {
        proof {
            use_type_invariant(self);
        }
        self.ports
    }
}

impl From<PortPlate> for PortSet {
    fn from(plate: PortPlate) -> (ports: PortSet) {
        plate.ports
    }
}

impl vstd::std_specs::convert::FromSpecImpl<PortPlate> for PortSet {
    open spec fn obeys_from_spec() -> bool {
        true
    }

    closed spec fn from_spec(plate: PortPlate) -> PortSet {
        plate.ports
    }
}

/// The set that a plate converts into holds the ports of the plate.
pub proof fn lemma_set_from_plate(plate: PortPlate)
    ensures
        <PortSet as vstd::std_specs::convert::FromSpec<PortPlate>>::from_spec(plate)@ == plate@,
{
}

} // verus!
