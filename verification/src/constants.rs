//! The registries of record types and classes, and their 16-bit codes.

use crate::error::DnsError;
use vstd::prelude::*;

verus! {

/// The type of a resource record in a response.
#[derive(Debug, Clone, Copy, PartialEq, Eq, Structural)]
pub enum ResponseType {
    /// A host address (code 1).
    A,
    /// An authoritative name server (code 2).
    NS,
    /// A mail destination (obsolete, use MX) (code 3).
    MD,
    /// A mail forwarder (obsolete, use MX) (code 4).
    MF,
    /// The canonical name for an alias (code 5).
    CNAME,
    /// Marks the start of a zone of authority (code 6).
    SOA,
    /// A mailbox domain name (experimental) (code 7).
    MB,
    /// A mail group member (experimental) (code 8).
    MG,
    /// A mail rename domain name (experimental) (code 9).
    MR,
    /// A null record (experimental) (code 10).
    NULL,
    /// A well known service description (code 11).
    WKS,
    /// A domain name pointer (code 12).
    PTR,
    /// Host information (code 13).
    HINFO,
    /// Mailbox or mail list information (code 14).
    MINFO,
    /// Mail exchange (code 15).
    MX,
    /// Text strings (code 16).
    TXT,
    /// An IPv6 host address (code 28).
    AAAA,
}

impl ResponseType {
    /// The 16-bit code that stands for this record type on the wire.
    pub open spec fn spec_code(self) -> u16 {
        match self {
            ResponseType::A => 1,
            ResponseType::NS => 2,
            ResponseType::MD => 3,
            ResponseType::MF => 4,
            ResponseType::CNAME => 5,
            ResponseType::SOA => 6,
            ResponseType::MB => 7,
            ResponseType::MG => 8,
            ResponseType::MR => 9,
            ResponseType::NULL => 10,
            ResponseType::WKS => 11,
            ResponseType::PTR => 12,
            ResponseType::HINFO => 13,
            ResponseType::MINFO => 14,
            ResponseType::MX => 15,
            ResponseType::TXT => 16,
            ResponseType::AAAA => 28,
        }
    }

    /// The record type that a code stands for, if the registry holds one.
    pub open spec fn from_code(value: u16) -> Option<Self> {
        if value == 1 {
            Some(ResponseType::A)
        } else if value == 2 {
            Some(ResponseType::NS)
        } else if value == 3 {
            Some(ResponseType::MD)
        } else if value == 4 {
            Some(ResponseType::MF)
        } else if value == 5 {
            Some(ResponseType::CNAME)
        } else if value == 6 {
            Some(ResponseType::SOA)
        } else if value == 7 {
            Some(ResponseType::MB)
        } else if value == 8 {
            Some(ResponseType::MG)
        } else if value == 9 {
            Some(ResponseType::MR)
        } else if value == 10 {
            Some(ResponseType::NULL)
        } else if value == 11 {
            Some(ResponseType::WKS)
        } else if value == 12 {
            Some(ResponseType::PTR)
        } else if value == 13 {
            Some(ResponseType::HINFO)
        } else if value == 14 {
            Some(ResponseType::MINFO)
        } else if value == 15 {
            Some(ResponseType::MX)
        } else if value == 16 {
            Some(ResponseType::TXT)
        } else if value == 28 {
            Some(ResponseType::AAAA)
        } else {
            None
        }
    }

    /// The 16-bit code that stands for this record type on the wire.
    #[verifier::when_used_as_spec(spec_code)]
    pub fn code(self) -> (value: u16)
        ensures
            value == self.spec_code(),
    {
        match self {
            ResponseType::A => 1,
            ResponseType::NS => 2,
            ResponseType::MD => 3,
            ResponseType::MF => 4,
            ResponseType::CNAME => 5,
            ResponseType::SOA => 6,
            ResponseType::MB => 7,
            ResponseType::MG => 8,
            ResponseType::MR => 9,
            ResponseType::NULL => 10,
            ResponseType::WKS => 11,
            ResponseType::PTR => 12,
            ResponseType::HINFO => 13,
            ResponseType::MINFO => 14,
            ResponseType::MX => 15,
            ResponseType::TXT => 16,
            ResponseType::AAAA => 28,
        }
    }

    /// Reads a record type code. A code outside the registry is an error, never
    /// a default.
    pub fn try_from(value: u16) -> (r: Result<Self, DnsError>)
        ensures
            r == match Self::from_code(value) {
                Some(known) => Ok::<Self, DnsError>(known),
                None => Err(DnsError::UnsupportedCode),
            },
    {
        match value {
            1 => Ok(ResponseType::A),
            2 => Ok(ResponseType::NS),
            3 => Ok(ResponseType::MD),
            4 => Ok(ResponseType::MF),
            5 => Ok(ResponseType::CNAME),
            6 => Ok(ResponseType::SOA),
            7 => Ok(ResponseType::MB),
            8 => Ok(ResponseType::MG),
            9 => Ok(ResponseType::MR),
            10 => Ok(ResponseType::NULL),
            11 => Ok(ResponseType::WKS),
            12 => Ok(ResponseType::PTR),
            13 => Ok(ResponseType::HINFO),
            14 => Ok(ResponseType::MINFO),
            15 => Ok(ResponseType::MX),
            16 => Ok(ResponseType::TXT),
            28 => Ok(ResponseType::AAAA),
            _ => Err(DnsError::UnsupportedCode),
        }
    }

    /// Every record type is read back from its own code.
    pub proof fn lemma_code_round_trip(self)
        ensures
            Self::from_code(self.spec_code()) == Some(self),
    {
    }

    /// A code that is read as a record type is the code of that record type.
    pub proof fn lemma_from_code_is_code(value: u16)
        ensures
            Self::from_code(value) matches Some(known) ==> known.spec_code() == value,
    {
    }
}

/// The class of a resource record in a response.
#[derive(Debug, Clone, Copy, PartialEq, Eq, Structural)]
pub enum ResponseClass {
    /// The Internet (code 1).
    IN,
    /// The CSNET class (obsolete) (code 2).
    CS,
    /// The CHAOS class (code 3).
    CH,
    /// Hesiod (code 4).
    HS,
}

impl ResponseClass {
    /// The 16-bit code that stands for this record class on the wire.
    pub open spec fn spec_code(self) -> u16 {
        match self {
            ResponseClass::IN => 1,
            ResponseClass::CS => 2,
            ResponseClass::CH => 3,
            ResponseClass::HS => 4,
        }
    }

    /// The record class that a code stands for, if the registry holds one.
    pub open spec fn from_code(value: u16) -> Option<Self> {
        if value == 1 {
            Some(ResponseClass::IN)
        } else if value == 2 {
            Some(ResponseClass::CS)
        } else if value == 3 {
            Some(ResponseClass::CH)
        } else if value == 4 {
            Some(ResponseClass::HS)
        } else {
            None
        }
    }

    /// The 16-bit code that stands for this record class on the wire.
    #[verifier::when_used_as_spec(spec_code)]
    pub fn code(self) -> (value: u16)
        ensures
            value == self.spec_code(),
    {
        match self {
            ResponseClass::IN => 1,
            ResponseClass::CS => 2,
            ResponseClass::CH => 3,
            ResponseClass::HS => 4,
        }
    }

    /// Reads a record class code. A code outside the registry is an error, never
    /// a default.
    pub fn try_from(value: u16) -> (r: Result<Self, DnsError>)
        ensures
            r == match Self::from_code(value) {
                Some(known) => Ok::<Self, DnsError>(known),
                None => Err(DnsError::UnsupportedCode),
            },
    {
        match value {
            1 => Ok(ResponseClass::IN),
            2 => Ok(ResponseClass::CS),
            3 => Ok(ResponseClass::CH),
            4 => Ok(ResponseClass::HS),
            _ => Err(DnsError::UnsupportedCode),
        }
    }

    /// Every record class is read back from its own code.
    pub proof fn lemma_code_round_trip(self)
        ensures
            Self::from_code(self.spec_code()) == Some(self),
    {
    }

    /// A code that is read as a record class is the code of that record class.
    pub proof fn lemma_from_code_is_code(value: u16)
        ensures
            Self::from_code(value) matches Some(known) ==> known.spec_code() == value,
    {
    }
}

/// The type that a question asks for.
#[derive(Debug, Clone, Copy, PartialEq, Eq, Structural)]
pub enum QueryType {
    /// A host address (code 1).
    A,
    /// An authoritative name server (code 2).
    NS,
    /// A mail destination (obsolete, use MX) (code 3).
    MD,
    /// A mail forwarder (obsolete, use MX) (code 4).
    MF,
    /// The canonical name for an alias (code 5).
    CNAME,
    /// Marks the start of a zone of authority (code 6).
    SOA,
    /// A mailbox domain name (experimental) (code 7).
    MB,
    /// A mail group member (experimental) (code 8).
    MG,
    /// A mail rename domain name (experimental) (code 9).
    MR,
    /// A null record (experimental) (code 10).
    NULL,
    /// A well known service description (code 11).
    WKS,
    /// A domain name pointer (code 12).
    PTR,
    /// Host information (code 13).
    HINFO,
    /// Mailbox or mail list information (code 14).
    MINFO,
    /// Mail exchange (code 15).
    MX,
    /// Text strings (code 16).
    TXT,
    /// A request for a transfer of an entire zone (code 252).
    AXFR,
    /// A request for mailbox-related records (MB, MG or MR) (code 253).
    MAILB,
    /// A request for mail agent records (obsolete, see MX) (code 254).
    MAILA,
    /// A request for all records (code 255).
    All,
}

impl QueryType {
    /// The 16-bit code that stands for this question type on the wire.
    pub open spec fn spec_code(self) -> u16 {
        match self {
            QueryType::A => 1,
            QueryType::NS => 2,
            QueryType::MD => 3,
            QueryType::MF => 4,
            QueryType::CNAME => 5,
            QueryType::SOA => 6,
            QueryType::MB => 7,
            QueryType::MG => 8,
            QueryType::MR => 9,
            QueryType::NULL => 10,
            QueryType::WKS => 11,
            QueryType::PTR => 12,
            QueryType::HINFO => 13,
            QueryType::MINFO => 14,
            QueryType::MX => 15,
            QueryType::TXT => 16,
            QueryType::AXFR => 252,
            QueryType::MAILB => 253,
            QueryType::MAILA => 254,
            QueryType::All => 255,
        }
    }

    /// The question type that a code stands for, if the registry holds one.
    pub open spec fn from_code(value: u16) -> Option<Self> {
        if value == 1 {
            Some(QueryType::A)
        } else if value == 2 {
            Some(QueryType::NS)
        } else if value == 3 {
            Some(QueryType::MD)
        } else if value == 4 {
            Some(QueryType::MF)
        } else if value == 5 {
            Some(QueryType::CNAME)
        } else if value == 6 {
            Some(QueryType::SOA)
        } else if value == 7 {
            Some(QueryType::MB)
        } else if value == 8 {
            Some(QueryType::MG)
        } else if value == 9 {
            Some(QueryType::MR)
        } else if value == 10 {
            Some(QueryType::NULL)
        } else if value == 11 {
            Some(QueryType::WKS)
        } else if value == 12 {
            Some(QueryType::PTR)
        } else if value == 13 {
            Some(QueryType::HINFO)
        } else if value == 14 {
            Some(QueryType::MINFO)
        } else if value == 15 {
            Some(QueryType::MX)
        } else if value == 16 {
            Some(QueryType::TXT)
        } else if value == 252 {
            Some(QueryType::AXFR)
        } else if value == 253 {
            Some(QueryType::MAILB)
        } else if value == 254 {
            Some(QueryType::MAILA)
        } else if value == 255 {
            Some(QueryType::All)
        } else {
            None
        }
    }

    /// The 16-bit code that stands for this question type on the wire.
    #[verifier::when_used_as_spec(spec_code)]
    pub fn code(self) -> (value: u16)
        ensures
            value == self.spec_code(),
    {
        match self {
            QueryType::A => 1,
            QueryType::NS => 2,
            QueryType::MD => 3,
            QueryType::MF => 4,
            QueryType::CNAME => 5,
            QueryType::SOA => 6,
            QueryType::MB => 7,
            QueryType::MG => 8,
            QueryType::MR => 9,
            QueryType::NULL => 10,
            QueryType::WKS => 11,
            QueryType::PTR => 12,
            QueryType::HINFO => 13,
            QueryType::MINFO => 14,
            QueryType::MX => 15,
            QueryType::TXT => 16,
            QueryType::AXFR => 252,
            QueryType::MAILB => 253,
            QueryType::MAILA => 254,
            QueryType::All => 255,
        }
    }

    /// Reads a question type code. A code outside the registry is an error, never
    /// a default.
    pub fn try_from(value: u16) -> (r: Result<Self, DnsError>)
        ensures
            r == match Self::from_code(value) {
                Some(known) => Ok::<Self, DnsError>(known),
                None => Err(DnsError::UnsupportedCode),
            },
    {
        match value {
            1 => Ok(QueryType::A),
            2 => Ok(QueryType::NS),
            3 => Ok(QueryType::MD),
            4 => Ok(QueryType::MF),
            5 => Ok(QueryType::CNAME),
            6 => Ok(QueryType::SOA),
            7 => Ok(QueryType::MB),
            8 => Ok(QueryType::MG),
            9 => Ok(QueryType::MR),
            10 => Ok(QueryType::NULL),
            11 => Ok(QueryType::WKS),
            12 => Ok(QueryType::PTR),
            13 => Ok(QueryType::HINFO),
            14 => Ok(QueryType::MINFO),
            15 => Ok(QueryType::MX),
            16 => Ok(QueryType::TXT),
            252 => Ok(QueryType::AXFR),
            253 => Ok(QueryType::MAILB),
            254 => Ok(QueryType::MAILA),
            255 => Ok(QueryType::All),
            _ => Err(DnsError::UnsupportedCode),
        }
    }

    /// Every question type is read back from its own code.
    pub proof fn lemma_code_round_trip(self)
        ensures
            Self::from_code(self.spec_code()) == Some(self),
    {
    }

    /// A code that is read as a question type is the code of that question type.
    pub proof fn lemma_from_code_is_code(value: u16)
        ensures
            Self::from_code(value) matches Some(known) ==> known.spec_code() == value,
    {
    }
}

/// The class that a question asks for.
#[derive(Debug, Clone, Copy, PartialEq, Eq, Structural)]
pub enum QueryClass {
    /// The Internet (code 1).
    IN,
    /// The CSNET class (obsolete) (code 2).
    CS,
    /// The CHAOS class (code 3).
    CH,
    /// Hesiod (code 4).
    HS,
    /// Any class (code 255).
    All,
}

impl QueryClass {
    /// The 16-bit code that stands for this question class on the wire.
    pub open spec fn spec_code(self) -> u16 {
        match self {
            QueryClass::IN => 1,
            QueryClass::CS => 2,
            QueryClass::CH => 3,
            QueryClass::HS => 4,
            QueryClass::All => 255,
        }
    }

    /// The question class that a code stands for, if the registry holds one.
    pub open spec fn from_code(value: u16) -> Option<Self> {
        if value == 1 {
            Some(QueryClass::IN)
        } else if value == 2 {
            Some(QueryClass::CS)
        } else if value == 3 {
            Some(QueryClass::CH)
        } else if value == 4 {
            Some(QueryClass::HS)
        } else if value == 255 {
            Some(QueryClass::All)
        } else {
            None
        }
    }

    /// The 16-bit code that stands for this question class on the wire.
    #[verifier::when_used_as_spec(spec_code)]
    pub fn code(self) -> (value: u16)
        ensures
            value == self.spec_code(),
    {
        match self {
            QueryClass::IN => 1,
            QueryClass::CS => 2,
            QueryClass::CH => 3,
            QueryClass::HS => 4,
            QueryClass::All => 255,
        }
    }

    /// Reads a question class code. A code outside the registry is an error, never
    /// a default.
    pub fn try_from(value: u16) -> (r: Result<Self, DnsError>)
        ensures
            r == match Self::from_code(value) {
                Some(known) => Ok::<Self, DnsError>(known),
                None => Err(DnsError::UnsupportedCode),
            },
    {
        match value {
            1 => Ok(QueryClass::IN),
            2 => Ok(QueryClass::CS),
            3 => Ok(QueryClass::CH),
            4 => Ok(QueryClass::HS),
            255 => Ok(QueryClass::All),
            _ => Err(DnsError::UnsupportedCode),
        }
    }

    /// Every question class is read back from its own code.
    pub proof fn lemma_code_round_trip(self)
        ensures
            Self::from_code(self.spec_code()) == Some(self),
    {
    }

    /// A code that is read as a question class is the code of that question class.
    pub proof fn lemma_from_code_is_code(value: u16)
        ensures
            Self::from_code(value) matches Some(known) ==> known.spec_code() == value,
    {
    }
}

} // verus!
