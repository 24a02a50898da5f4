//! The identifiers and levels of TNEF attributes.

use vstd::prelude::*;
use vstd::std_specs::cmp::PartialEqSpec;

verus! {

/// The identifier of a TNEF attribute.
#[derive(Clone, Copy, Debug)]
pub enum TnefAttributeId {
    /// Owner of a schedule item (`0x0006_0000`).
    Owner,
    /// Whom a schedule item was sent for (`0x0006_0001`).
    SentFor,
    /// Delegate of a schedule item (`0x0006_0002`).
    Delegate,
    /// Start of a schedule item (`0x0003_0006`).
    DateStart,
    /// End of a schedule item (`0x0003_0007`).
    DateEnd,
    /// Appointment identifier of the owner (`0x0005_0008`).
    AidOwner,
    /// Whether a response is requested (`0x0004_0009`).
    RequestRes,
    /// Sender (`0x0000_8000`).
    From,
    /// Subject line (`0x0001_8004`).
    Subject,
    /// Time of sending (`0x0003_8005`).
    DateSent,
    /// Time of receipt (`0x0003_8006`).
    DateRecd,
    /// Message flags (`0x0006_8007`).
    MessageStatus,
    /// Message class (`0x0007_8008`).
    MessageClass,
    /// Message identifier (`0x0001_8009`).
    MessageId,
    /// Identifier of the parent message (`0x0001_800A`).
    ParentId,
    /// Conversation identifier (`0x0001_800B`).
    ConversationId,
    /// Plain text body (`0x0002_800C`).
    Body,
    /// Priority (`0x0004_800D`).
    Priority,
    /// Raw bytes of an attachment (`0x0006_800F`).
    AttachData,
    /// File name of an attachment (`0x0001_8010`).
    AttachTitle,
    /// Rendering metafile of an attachment (`0x0006_8011`).
    AttachMetaFile,
    /// Creation time of an attachment (`0x0003_8012`).
    AttachCreateDate,
    /// Modification time of an attachment (`0x0003_8013`).
    AttachModifyDate,
    /// Time of last modification (`0x0003_8020`).
    DateModified,
    /// Transport file name of an attachment (`0x0006_9001`).
    AttachTransportFilename,
    /// Rendering data that opens an attachment (`0x0006_9002`).
    AttachRendData,
    /// Property list of the message (`0x0006_9003`).
    MsgProps,
    /// Property lists of the recipients (`0x0006_9004`).
    RecipTable,
    /// Property list of an attachment (`0x0006_9005`).
    Attachment,
    /// Version of the stream format (`0x0008_9006`).
    TnefVersion,
    /// Code page of the 8-bit text that follows (`0x0006_9007`).
    OemCodepage,
    /// Message class before encapsulation (`0x0007_9008`).
    OriginalMessageClass,
    /// Any other attribute identifier.
    Other(u32),
}

impl TnefAttributeId {
    /// The member that `code` denotes; a code without a name of its own is kept
    /// in `Other`.
    pub open spec fn spec_from_base_type(code: u32) -> Self {
        if code == 0x0006_0000 {
            Self::Owner
        } else if code == 0x0006_0001 {
            Self::SentFor
        } else if code == 0x0006_0002 {
            Self::Delegate
        } else if code == 0x0003_0006 {
            Self::DateStart
        } else if code == 0x0003_0007 {
            Self::DateEnd
        } else if code == 0x0005_0008 {
            Self::AidOwner
        } else if code == 0x0004_0009 {
            Self::RequestRes
        } else if code == 0x0000_8000 {
            Self::From
        } else if code == 0x0001_8004 {
            Self::Subject
        } else if code == 0x0003_8005 {
            Self::DateSent
        } else if code == 0x0003_8006 {
            Self::DateRecd
        } else if code == 0x0006_8007 {
            Self::MessageStatus
        } else if code == 0x0007_8008 {
            Self::MessageClass
        } else if code == 0x0001_8009 {
            Self::MessageId
        } else if code == 0x0001_800A {
            Self::ParentId
        } else if code == 0x0001_800B {
            Self::ConversationId
        } else if code == 0x0002_800C {
            Self::Body
        } else if code == 0x0004_800D {
            Self::Priority
        } else if code == 0x0006_800F {
            Self::AttachData
        } else if code == 0x0001_8010 {
            Self::AttachTitle
        } else if code == 0x0006_8011 {
            Self::AttachMetaFile
        } else if code == 0x0003_8012 {
            Self::AttachCreateDate
        } else if code == 0x0003_8013 {
            Self::AttachModifyDate
        } else if code == 0x0003_8020 {
            Self::DateModified
        } else if code == 0x0006_9001 {
            Self::AttachTransportFilename
        } else if code == 0x0006_9002 {
            Self::AttachRendData
        } else if code == 0x0006_9003 {
            Self::MsgProps
        } else if code == 0x0006_9004 {
            Self::RecipTable
        } else if code == 0x0006_9005 {
            Self::Attachment
        } else if code == 0x0008_9006 {
            Self::TnefVersion
        } else if code == 0x0006_9007 {
            Self::OemCodepage
        } else if code == 0x0007_9008 {
            Self::OriginalMessageClass
        } else {
            Self::Other(code)
        }
    }

    /// The code that this member stands for.
    pub open spec fn spec_to_base_type(&self) -> u32 {
        match self {
            Self::Owner => 0x0006_0000,
            Self::SentFor => 0x0006_0001,
            Self::Delegate => 0x0006_0002,
            Self::DateStart => 0x0003_0006,
            Self::DateEnd => 0x0003_0007,
            Self::AidOwner => 0x0005_0008,
            Self::RequestRes => 0x0004_0009,
            Self::From => 0x0000_8000,
            Self::Subject => 0x0001_8004,
            Self::DateSent => 0x0003_8005,
            Self::DateRecd => 0x0003_8006,
            Self::MessageStatus => 0x0006_8007,
            Self::MessageClass => 0x0007_8008,
            Self::MessageId => 0x0001_8009,
            Self::ParentId => 0x0001_800A,
            Self::ConversationId => 0x0001_800B,
            Self::Body => 0x0002_800C,
            Self::Priority => 0x0004_800D,
            Self::AttachData => 0x0006_800F,
            Self::AttachTitle => 0x0001_8010,
            Self::AttachMetaFile => 0x0006_8011,
            Self::AttachCreateDate => 0x0003_8012,
            Self::AttachModifyDate => 0x0003_8013,
            Self::DateModified => 0x0003_8020,
            Self::AttachTransportFilename => 0x0006_9001,
            Self::AttachRendData => 0x0006_9002,
            Self::MsgProps => 0x0006_9003,
            Self::RecipTable => 0x0006_9004,
            Self::Attachment => 0x0006_9005,
            Self::TnefVersion => 0x0008_9006,
            Self::OemCodepage => 0x0006_9007,
            Self::OriginalMessageClass => 0x0007_9008,
            Self::Other(code) => *code,
        }
    }

    /// Whether this is a member with a name of its own, or an `Other` whose
    /// code has none.
    pub open spec fn is_canonical(&self) -> bool {
        Self::spec_from_base_type(self.spec_to_base_type()) == *self
    }

    /// The member that `code` denotes; a code without a name of its own is kept
    /// in `Other`.
    #[verifier::when_used_as_spec(spec_from_base_type)]
    pub fn from_base_type(code: u32) -> (r: Self)
        ensures
            r == Self::spec_from_base_type(code),
    {
        if code == 0x0006_0000 {
            Self::Owner
        } else if code == 0x0006_0001 {
            Self::SentFor
        } else if code == 0x0006_0002 {
            Self::Delegate
        } else if code == 0x0003_0006 {
            Self::DateStart
        } else if code == 0x0003_0007 {
            Self::DateEnd
        } else if code == 0x0005_0008 {
            Self::AidOwner
        } else if code == 0x0004_0009 {
            Self::RequestRes
        } else if code == 0x0000_8000 {
            Self::From
        } else if code == 0x0001_8004 {
            Self::Subject
        } else if code == 0x0003_8005 {
            Self::DateSent
        } else if code == 0x0003_8006 {
            Self::DateRecd
        } else if code == 0x0006_8007 {
            Self::MessageStatus
        } else if code == 0x0007_8008 {
            Self::MessageClass
        } else if code == 0x0001_8009 {
            Self::MessageId
        } else if code == 0x0001_800A {
            Self::ParentId
        } else if code == 0x0001_800B {
            Self::ConversationId
        } else if code == 0x0002_800C {
            Self::Body
        } else if code == 0x0004_800D {
            Self::Priority
        } else if code == 0x0006_800F {
            Self::AttachData
        } else if code == 0x0001_8010 {
            Self::AttachTitle
        } else if code == 0x0006_8011 {
            Self::AttachMetaFile
        } else if code == 0x0003_8012 {
            Self::AttachCreateDate
        } else if code == 0x0003_8013 {
            Self::AttachModifyDate
        } else if code == 0x0003_8020 {
            Self::DateModified
        } else if code == 0x0006_9001 {
            Self::AttachTransportFilename
        } else if code == 0x0006_9002 {
            Self::AttachRendData
        } else if code == 0x0006_9003 {
            Self::MsgProps
        } else if code == 0x0006_9004 {
            Self::RecipTable
        } else if code == 0x0006_9005 {
            Self::Attachment
        } else if code == 0x0008_9006 {
            Self::TnefVersion
        } else if code == 0x0006_9007 {
            Self::OemCodepage
        } else if code == 0x0007_9008 {
            Self::OriginalMessageClass
        } else {
            Self::Other(code)
        }
    }

    /// The code that this member stands for.
    #[verifier::when_used_as_spec(spec_to_base_type)]
    pub fn to_base_type(&self) -> (code: u32)
        ensures
            code == self.spec_to_base_type(),
    {
        match self {
            Self::Owner => 0x0006_0000,
            Self::SentFor => 0x0006_0001,
            Self::Delegate => 0x0006_0002,
            Self::DateStart => 0x0003_0006,
            Self::DateEnd => 0x0003_0007,
            Self::AidOwner => 0x0005_0008,
            Self::RequestRes => 0x0004_0009,
            Self::From => 0x0000_8000,
            Self::Subject => 0x0001_8004,
            Self::DateSent => 0x0003_8005,
            Self::DateRecd => 0x0003_8006,
            Self::MessageStatus => 0x0006_8007,
            Self::MessageClass => 0x0007_8008,
            Self::MessageId => 0x0001_8009,
            Self::ParentId => 0x0001_800A,
            Self::ConversationId => 0x0001_800B,
            Self::Body => 0x0002_800C,
            Self::Priority => 0x0004_800D,
            Self::AttachData => 0x0006_800F,
            Self::AttachTitle => 0x0001_8010,
            Self::AttachMetaFile => 0x0006_8011,
            Self::AttachCreateDate => 0x0003_8012,
            Self::AttachModifyDate => 0x0003_8013,
            Self::DateModified => 0x0003_8020,
            Self::AttachTransportFilename => 0x0006_9001,
            Self::AttachRendData => 0x0006_9002,
            Self::MsgProps => 0x0006_9003,
            Self::RecipTable => 0x0006_9004,
            Self::Attachment => 0x0006_9005,
            Self::TnefVersion => 0x0008_9006,
            Self::OemCodepage => 0x0006_9007,
            Self::OriginalMessageClass => 0x0007_9008,
            Self::Other(code) => *code,
        }
    }

    /// Every code survives the trip through the enumeration unchanged.
    pub proof fn lemma_code_round_trip(code: u32)
        ensures
            Self::spec_from_base_type(code).spec_to_base_type() == code,
            Self::spec_from_base_type(code).is_canonical(),
    {
    }

    /// A member survives the trip through its code: as the same member where it
    /// has a name of its own, and always as a member that `==` calls equal.
    pub proof fn lemma_member_round_trip(member: Self)
        ensures
            member !is Other ==> Self::spec_from_base_type(member.spec_to_base_type()) == member,
            member.eq_spec(&Self::spec_from_base_type(member.spec_to_base_type())),
    {
    }

    /// Members with names of their own that stand for the same code are the
    /// same member.
    pub proof fn lemma_codes_tell_members_apart(a: Self, b: Self)
        requires
            a !is Other,
            b !is Other,
            a.spec_to_base_type() == b.spec_to_base_type(),
        ensures
            a == b,
    {
    }
}

impl PartialEq for TnefAttributeId {
    /// Two members are equal when their codes are.
    fn eq(&self, other: &Self) -> (r: bool) {
        self.to_base_type() == other.to_base_type()
    }
}

impl Eq for TnefAttributeId {
}

impl vstd::std_specs::cmp::PartialEqSpecImpl for TnefAttributeId {
    /// `==` is what `eq_spec` says.
    open spec fn obeys_eq_spec() -> bool {
        true
    }

    /// Two members are equal when their codes are.
    open spec fn eq_spec(&self, other: &Self) -> bool {
        self.spec_to_base_type() == other.spec_to_base_type()
    }
}


/// Whether an attribute describes the message or an attachment.
#[derive(Clone, Copy, Debug)]
pub enum TnefAttributeLevel {
    /// The attribute belongs to the message (`0x01`).
    Message,
    /// The attribute belongs to an attachment (`0x02`).
    Attachment,
    /// Any other level.
    Other(u8),
}

impl TnefAttributeLevel {
    /// The member that `code` denotes; a code without a name of its own is kept
    /// in `Other`.
    pub open spec fn spec_from_base_type(code: u8) -> Self {
        if code == 0x01 {
            Self::Message
        } else if code == 0x02 {
            Self::Attachment
        } else {
            Self::Other(code)
        }
    }

    /// The code that this member stands for.
    pub open spec fn spec_to_base_type(&self) -> u8 {
        match self {
            Self::Message => 0x01,
            Self::Attachment => 0x02,
            Self::Other(code) => *code,
        }
    }

    /// Whether this is a member with a name of its own, or an `Other` whose
    /// code has none.
    pub open spec fn is_canonical(&self) -> bool {
        Self::spec_from_base_type(self.spec_to_base_type()) == *self
    }

    /// The member that `code` denotes; a code without a name of its own is kept
    /// in `Other`.
    #[verifier::when_used_as_spec(spec_from_base_type)]
    pub fn from_base_type(code: u8) -> (r: Self)
        ensures
            r == Self::spec_from_base_type(code),
    {
        if code == 0x01 {
            Self::Message
        } else if code == 0x02 {
            Self::Attachment
        } else {
            Self::Other(code)
        }
    }

    /// The code that this member stands for.
    #[verifier::when_used_as_spec(spec_to_base_type)]
    pub fn to_base_type(&self) -> (code: u8)
        ensures
            code == self.spec_to_base_type(),
    {
        match self {
            Self::Message => 0x01,
            Self::Attachment => 0x02,
            Self::Other(code) => *code,
        }
    }

    /// Every code survives the trip through the enumeration unchanged.
    pub proof fn lemma_code_round_trip(code: u8)
        ensures
            Self::spec_from_base_type(code).spec_to_base_type() == code,
            Self::spec_from_base_type(code).is_canonical(),
    {
    }

    /// A member survives the trip through its code: as the same member where it
    /// has a name of its own, and always as a member that `==` calls equal.
    pub proof fn lemma_member_round_trip(member: Self)
        ensures
            member !is Other ==> Self::spec_from_base_type(member.spec_to_base_type()) == member,
            member.eq_spec(&Self::spec_from_base_type(member.spec_to_base_type())),
    {
    }

    /// Members with names of their own that stand for the same code are the
    /// same member.
    pub proof fn lemma_codes_tell_members_apart(a: Self, b: Self)
        requires
            a !is Other,
            b !is Other,
            a.spec_to_base_type() == b.spec_to_base_type(),
        ensures
            a == b,
    {
    }
}

impl PartialEq for TnefAttributeLevel {
    /// Two members are equal when their codes are.
    fn eq(&self, other: &Self) -> (r: bool) {
        self.to_base_type() == other.to_base_type()
    }
}

impl Eq for TnefAttributeLevel {
}

impl vstd::std_specs::cmp::PartialEqSpecImpl for TnefAttributeLevel {
    /// `==` is what `eq_spec` says.
    open spec fn obeys_eq_spec() -> bool {
        true
    }

    /// Two members are equal when their codes are.
    open spec fn eq_spec(&self, other: &Self) -> bool {
        self.spec_to_base_type() == other.spec_to_base_type()
    }
}

} // verus!
