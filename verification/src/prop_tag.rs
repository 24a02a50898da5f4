//! The identifiers of well-known MAPI properties.

use vstd::prelude::*;
use vstd::std_specs::cmp::PartialEqSpec;

verus! {

/// The identifier of a well-known property.
#[derive(Clone, Copy, Debug)]
pub enum PropTag {
    /// The alternate recipient allowed property (`0x0002`).
    TagAlternateRecipientAllowed,
    /// The importance property (`0x0017`).
    TagImportance,
    /// The message class property (`0x001A`).
    TagMessageClass,
    /// The originator delivery report requested property (`0x0023`).
    TagOriginatorDeliveryReportRequested,
    /// The priority property (`0x0026`).
    TagPriority,
    /// The read receipt requested property (`0x0029`).
    TagReadReceiptRequested,
    /// The sensitivity property (`0x0036`).
    TagSensitivity,
    /// The subject property (`0x0037`).
    TagSubject,
    /// The client submit time property (`0x0039`).
    TagClientSubmitTime,
    /// The sent representing search key property (`0x003B`).
    TagSentRepresentingSearchKey,
    /// The received by entry identifier property (`0x003F`).
    TagReceivedByEntryId,
    /// The received by name property (`0x0040`).
    TagReceivedByName,
    /// The sent representing entry identifier property (`0x0041`).
    TagSentRepresentingEntryId,
    /// The sent representing name property (`0x0042`).
    TagSentRepresentingName,
    /// The sent representing address type property (`0x0064`).
    TagSentRepresentingAddressType,
    /// The sent representing email address property (`0x0065`).
    TagSentRepresentingEmailAddress,
    /// The conversation topic property (`0x0070`).
    TagConversationTopic,
    /// The conversation index property (`0x0071`).
    TagConversationIndex,
    /// The received by address type property (`0x0075`).
    TagReceivedByAddressType,
    /// The received by email address property (`0x0076`).
    TagReceivedByEmailAddress,
    /// The transport message headers property (`0x007D`).
    TagTransportMessageHeaders,
    /// The recipient type property (`0x0C15`).
    TagRecipientType,
    /// The reply requested property (`0x0C17`).
    TagReplyRequested,
    /// The sender entry identifier property (`0x0C19`).
    TagSenderEntryId,
    /// The sender name property (`0x0C1A`).
    TagSenderName,
    /// The sender search key property (`0x0C1D`).
    TagSenderSearchKey,
    /// The sender address type property (`0x0C1E`).
    TagSenderAddressType,
    /// The sender email address property (`0x0C1F`).
    TagSenderEmailAddress,
    /// The display bcc property (`0x0E02`).
    TagDisplayBcc,
    /// The display cc property (`0x0E03`).
    TagDisplayCc,
    /// The display to property (`0x0E04`).
    TagDisplayTo,
    /// The message delivery time property (`0x0E06`).
    TagMessageDeliveryTime,
    /// The message flags property (`0x0E07`).
    TagMessageFlags,
    /// The message size property (`0x0E08`).
    TagMessageSize,
    /// The has attachments property (`0x0E1B`).
    TagHasAttachments,
    /// The normalized subject property (`0x0E1D`).
    TagNormalizedSubject,
    /// The rTF in sync property (`0x0E1F`).
    TagRtfInSync,
    /// The attach size property (`0x0E20`).
    TagAttachSize,
    /// The attach number property (`0x0E21`).
    TagAttachNumber,
    /// The record key property (`0x0FF9`).
    TagRecordKey,
    /// The object type property (`0x0FFE`).
    TagObjectType,
    /// The entry identifier property (`0x0FFF`).
    TagEntryId,
    /// The body property (`0x1000`).
    TagBody,
    /// The rTF compressed property (`0x1009`).
    TagRtfCompressed,
    /// The body HTML property (`0x1013`).
    TagBodyHtml,
    /// The internet message identifier property (`0x1035`).
    TagInternetMessageId,
    /// The display name property (`0x3001`).
    TagDisplayName,
    /// The address type property (`0x3002`).
    TagAddressType,
    /// The email address property (`0x3003`).
    TagEmailAddress,
    /// The creation time property (`0x3007`).
    TagCreationTime,
    /// The last modification time property (`0x3008`).
    TagLastModificationTime,
    /// The search key property (`0x300B`).
    TagSearchKey,
    /// The attach data binary property (`0x3701`).
    TagAttachDataBinary,
    /// The attach encoding property (`0x3702`).
    TagAttachEncoding,
    /// The attach extension property (`0x3703`).
    TagAttachExtension,
    /// The attach filename property (`0x3704`).
    TagAttachFilename,
    /// The attach method property (`0x3705`).
    TagAttachMethod,
    /// The attach long filename property (`0x3707`).
    TagAttachLongFilename,
    /// The attach pathname property (`0x3708`).
    TagAttachPathname,
    /// The attach rendering property (`0x3709`).
    TagAttachRendering,
    /// The attach tag property (`0x370A`).
    TagAttachTag,
    /// The rendering position property (`0x370B`).
    TagRenderingPosition,
    /// The attach mime tag property (`0x370E`).
    TagAttachMimeTag,
    /// The attach content identifier property (`0x3712`).
    TagAttachContentId,
    /// The internet codepage property (`0x3FDE`).
    TagInternetCodepage,
    /// The message locale identifier property (`0x3FF1`).
    TagMessageLocaleId,
    /// The message codepage property (`0x3FFD`).
    TagMessageCodepage,
    /// Any other property identifier.
    Other(u16),
}

impl PropTag {
    /// The member that `code` denotes; a code without a name of its own is kept
    /// in `Other`.
    pub open spec fn spec_from_base_type(code: u16) -> Self {
        if code == 0x0002 {
            Self::TagAlternateRecipientAllowed
        } else if code == 0x0017 {
            Self::TagImportance
        } else if code == 0x001A {
            Self::TagMessageClass
        } else if code == 0x0023 {
            Self::TagOriginatorDeliveryReportRequested
        } else if code == 0x0026 {
            Self::TagPriority
        } else if code == 0x0029 {
            Self::TagReadReceiptRequested
        } else if code == 0x0036 {
            Self::TagSensitivity
        } else if code == 0x0037 {
            Self::TagSubject
        } else if code == 0x0039 {
            Self::TagClientSubmitTime
        } else if code == 0x003B {
            Self::TagSentRepresentingSearchKey
        } else if code == 0x003F {
            Self::TagReceivedByEntryId
        } else if code == 0x0040 {
            Self::TagReceivedByName
        } else if code == 0x0041 {
            Self::TagSentRepresentingEntryId
        } else if code == 0x0042 {
            Self::TagSentRepresentingName
        } else if code == 0x0064 {
            Self::TagSentRepresentingAddressType
        } else if code == 0x0065 {
            Self::TagSentRepresentingEmailAddress
        } else if code == 0x0070 {
            Self::TagConversationTopic
        } else if code == 0x0071 {
            Self::TagConversationIndex
        } else if code == 0x0075 {
            Self::TagReceivedByAddressType
        } else if code == 0x0076 {
            Self::TagReceivedByEmailAddress
        } else if code == 0x007D {
            Self::TagTransportMessageHeaders
        } else if code == 0x0C15 {
            Self::TagRecipientType
        } else if code == 0x0C17 {
            Self::TagReplyRequested
        } else if code == 0x0C19 {
            Self::TagSenderEntryId
        } else if code == 0x0C1A {
            Self::TagSenderName
        } else if code == 0x0C1D {
            Self::TagSenderSearchKey
        } else if code == 0x0C1E {
            Self::TagSenderAddressType
        } else if code == 0x0C1F {
            Self::TagSenderEmailAddress
        } else if code == 0x0E02 {
            Self::TagDisplayBcc
        } else if code == 0x0E03 {
            Self::TagDisplayCc
        } else if code == 0x0E04 {
            Self::TagDisplayTo
        } else if code == 0x0E06 {
            Self::TagMessageDeliveryTime
        } else if code == 0x0E07 {
            Self::TagMessageFlags
        } else if code == 0x0E08 {
            Self::TagMessageSize
        } else if code == 0x0E1B {
            Self::TagHasAttachments
        } else if code == 0x0E1D {
            Self::TagNormalizedSubject
        } else if code == 0x0E1F {
            Self::TagRtfInSync
        } else if code == 0x0E20 {
            Self::TagAttachSize
        } else if code == 0x0E21 {
            Self::TagAttachNumber
        } else if code == 0x0FF9 {
            Self::TagRecordKey
        } else if code == 0x0FFE {
            Self::TagObjectType
        } else if code == 0x0FFF {
            Self::TagEntryId
        } else if code == 0x1000 {
            Self::TagBody
        } else if code == 0x1009 {
            Self::TagRtfCompressed
        } else if code == 0x1013 {
            Self::TagBodyHtml
        } else if code == 0x1035 {
            Self::TagInternetMessageId
        } else if code == 0x3001 {
            Self::TagDisplayName
        } else if code == 0x3002 {
            Self::TagAddressType
        } else if code == 0x3003 {
            Self::TagEmailAddress
        } else if code == 0x3007 {
            Self::TagCreationTime
        } else if code == 0x3008 {
            Self::TagLastModificationTime
        } else if code == 0x300B {
            Self::TagSearchKey
        } else if code == 0x3701 {
            Self::TagAttachDataBinary
        } else if code == 0x3702 {
            Self::TagAttachEncoding
        } else if code == 0x3703 {
            Self::TagAttachExtension
        } else if code == 0x3704 {
            Self::TagAttachFilename
        } else if code == 0x3705 {
            Self::TagAttachMethod
        } else if code == 0x3707 {
            Self::TagAttachLongFilename
        } else if code == 0x3708 {
            Self::TagAttachPathname
        } else if code == 0x3709 {
            Self::TagAttachRendering
        } else if code == 0x370A {
            Self::TagAttachTag
        } else if code == 0x370B {
            Self::TagRenderingPosition
        } else if code == 0x370E {
            Self::TagAttachMimeTag
        } else if code == 0x3712 {
            Self::TagAttachContentId
        } else if code == 0x3FDE {
            Self::TagInternetCodepage
        } else if code == 0x3FF1 {
            Self::TagMessageLocaleId
        } else if code == 0x3FFD {
            Self::TagMessageCodepage
        } else {
            Self::Other(code)
        }
    }

    /// The code that this member stands for.
    pub open spec fn spec_to_base_type(&self) -> u16 {
        match self {
            Self::TagAlternateRecipientAllowed => 0x0002,
            Self::TagImportance => 0x0017,
            Self::TagMessageClass => 0x001A,
            Self::TagOriginatorDeliveryReportRequested => 0x0023,
            Self::TagPriority => 0x0026,
            Self::TagReadReceiptRequested => 0x0029,
            Self::TagSensitivity => 0x0036,
            Self::TagSubject => 0x0037,
            Self::TagClientSubmitTime => 0x0039,
            Self::TagSentRepresentingSearchKey => 0x003B,
            Self::TagReceivedByEntryId => 0x003F,
            Self::TagReceivedByName => 0x0040,
            Self::TagSentRepresentingEntryId => 0x0041,
            Self::TagSentRepresentingName => 0x0042,
            Self::TagSentRepresentingAddressType => 0x0064,
            Self::TagSentRepresentingEmailAddress => 0x0065,
            Self::TagConversationTopic => 0x0070,
            Self::TagConversationIndex => 0x0071,
            Self::TagReceivedByAddressType => 0x0075,
            Self::TagReceivedByEmailAddress => 0x0076,
            Self::TagTransportMessageHeaders => 0x007D,
            Self::TagRecipientType => 0x0C15,
            Self::TagReplyRequested => 0x0C17,
            Self::TagSenderEntryId => 0x0C19,
            Self::TagSenderName => 0x0C1A,
            Self::TagSenderSearchKey => 0x0C1D,
            Self::TagSenderAddressType => 0x0C1E,
            Self::TagSenderEmailAddress => 0x0C1F,
            Self::TagDisplayBcc => 0x0E02,
            Self::TagDisplayCc => 0x0E03,
            Self::TagDisplayTo => 0x0E04,
            Self::TagMessageDeliveryTime => 0x0E06,
            Self::TagMessageFlags => 0x0E07,
            Self::TagMessageSize => 0x0E08,
            Self::TagHasAttachments => 0x0E1B,
            Self::TagNormalizedSubject => 0x0E1D,
            Self::TagRtfInSync => 0x0E1F,
            Self::TagAttachSize => 0x0E20,
            Self::TagAttachNumber => 0x0E21,
            Self::TagRecordKey => 0x0FF9,
            Self::TagObjectType => 0x0FFE,
            Self::TagEntryId => 0x0FFF,
            Self::TagBody => 0x1000,
            Self::TagRtfCompressed => 0x1009,
            Self::TagBodyHtml => 0x1013,
            Self::TagInternetMessageId => 0x1035,
            Self::TagDisplayName => 0x3001,
            Self::TagAddressType => 0x3002,
            Self::TagEmailAddress => 0x3003,
            Self::TagCreationTime => 0x3007,
            Self::TagLastModificationTime => 0x3008,
            Self::TagSearchKey => 0x300B,
            Self::TagAttachDataBinary => 0x3701,
            Self::TagAttachEncoding => 0x3702,
            Self::TagAttachExtension => 0x3703,
            Self::TagAttachFilename => 0x3704,
            Self::TagAttachMethod => 0x3705,
            Self::TagAttachLongFilename => 0x3707,
            Self::TagAttachPathname => 0x3708,
            Self::TagAttachRendering => 0x3709,
            Self::TagAttachTag => 0x370A,
            Self::TagRenderingPosition => 0x370B,
            Self::TagAttachMimeTag => 0x370E,
            Self::TagAttachContentId => 0x3712,
            Self::TagInternetCodepage => 0x3FDE,
            Self::TagMessageLocaleId => 0x3FF1,
            Self::TagMessageCodepage => 0x3FFD,
            Self::Other(code) => *code,
        }
    }

    /// Whether this is a member with a name of its own, or an `Other` whose
    /// code has none.
    pub open spec fn is_canonical(&self) -> bool {
        Self::spec_from_base_type(self.spec_to_base_type()) == *self
    }

    /// The member that `code` denotes; a code without a name of its own is kept
    /// in `Other`.
    #[verifier::when_used_as_spec(spec_from_base_type)]
    pub fn from_base_type(code: u16) -> (r: Self)
        ensures
            r == Self::spec_from_base_type(code),
    {
        if code == 0x0002 {
            Self::TagAlternateRecipientAllowed
        } else if code == 0x0017 {
            Self::TagImportance
        } else if code == 0x001A {
            Self::TagMessageClass
        } else if code == 0x0023 {
            Self::TagOriginatorDeliveryReportRequested
        } else if code == 0x0026 {
            Self::TagPriority
        } else if code == 0x0029 {
            Self::TagReadReceiptRequested
        } else if code == 0x0036 {
            Self::TagSensitivity
        } else if code == 0x0037 {
            Self::TagSubject
        } else if code == 0x0039 {
            Self::TagClientSubmitTime
        } else if code == 0x003B {
            Self::TagSentRepresentingSearchKey
        } else if code == 0x003F {
            Self::TagReceivedByEntryId
        } else if code == 0x0040 {
            Self::TagReceivedByName
        } else if code == 0x0041 {
            Self::TagSentRepresentingEntryId
        } else if code == 0x0042 {
            Self::TagSentRepresentingName
        } else if code == 0x0064 {
            Self::TagSentRepresentingAddressType
        } else if code == 0x0065 {
            Self::TagSentRepresentingEmailAddress
        } else if code == 0x0070 {
            Self::TagConversationTopic
        } else if code == 0x0071 {
            Self::TagConversationIndex
        } else if code == 0x0075 {
            Self::TagReceivedByAddressType
        } else if code == 0x0076 {
            Self::TagReceivedByEmailAddress
        } else if code == 0x007D {
            Self::TagTransportMessageHeaders
        } else if code == 0x0C15 {
            Self::TagRecipientType
        } else if code == 0x0C17 {
            Self::TagReplyRequested
        } else if code == 0x0C19 {
            Self::TagSenderEntryId
        } else if code == 0x0C1A {
            Self::TagSenderName
        } else if code == 0x0C1D {
            Self::TagSenderSearchKey
        } else if code == 0x0C1E {
            Self::TagSenderAddressType
        } else if code == 0x0C1F {
            Self::TagSenderEmailAddress
        } else if code == 0x0E02 {
            Self::TagDisplayBcc
        } else if code == 0x0E03 {
            Self::TagDisplayCc
        } else if code == 0x0E04 {
            Self::TagDisplayTo
        } else if code == 0x0E06 {
            Self::TagMessageDeliveryTime
        } else if code == 0x0E07 {
            Self::TagMessageFlags
        } else if code == 0x0E08 {
            Self::TagMessageSize
        } else if code == 0x0E1B {
            Self::TagHasAttachments
        } else if code == 0x0E1D {
            Self::TagNormalizedSubject
        } else if code == 0x0E1F {
            Self::TagRtfInSync
        } else if code == 0x0E20 {
            Self::TagAttachSize
        } else if code == 0x0E21 {
            Self::TagAttachNumber
        } else if code == 0x0FF9 {
            Self::TagRecordKey
        } else if code == 0x0FFE {
            Self::TagObjectType
        } else if code == 0x0FFF {
            Self::TagEntryId
        } else if code == 0x1000 {
            Self::TagBody
        } else if code == 0x1009 {
            Self::TagRtfCompressed
        } else if code == 0x1013 {
            Self::TagBodyHtml
        } else if code == 0x1035 {
            Self::TagInternetMessageId
        } else if code == 0x3001 {
            Self::TagDisplayName
        } else if code == 0x3002 {
            Self::TagAddressType
        } else if code == 0x3003 {
            Self::TagEmailAddress
        } else if code == 0x3007 {
            Self::TagCreationTime
        } else if code == 0x3008 {
            Self::TagLastModificationTime
        } else if code == 0x300B {
            Self::TagSearchKey
        } else if code == 0x3701 {
            Self::TagAttachDataBinary
        } else if code == 0x3702 {
            Self::TagAttachEncoding
        } else if code == 0x3703 {
            Self::TagAttachExtension
        } else if code == 0x3704 {
            Self::TagAttachFilename
        } else if code == 0x3705 {
            Self::TagAttachMethod
        } else if code == 0x3707 {
            Self::TagAttachLongFilename
        } else if code == 0x3708 {
            Self::TagAttachPathname
        } else if code == 0x3709 {
            Self::TagAttachRendering
        } else if code == 0x370A {
            Self::TagAttachTag
        } else if code == 0x370B {
            Self::TagRenderingPosition
        } else if code == 0x370E {
            Self::TagAttachMimeTag
        } else if code == 0x3712 {
            Self::TagAttachContentId
        } else if code == 0x3FDE {
            Self::TagInternetCodepage
        } else if code == 0x3FF1 {
            Self::TagMessageLocaleId
        } else if code == 0x3FFD {
            Self::TagMessageCodepage
        } else {
            Self::Other(code)
        }
    }

    /// The code that this member stands for.
    #[verifier::when_used_as_spec(spec_to_base_type)]
    pub fn to_base_type(&self) -> (code: u16)
        ensures
            code == self.spec_to_base_type(),
    {
        match self {
            Self::TagAlternateRecipientAllowed => 0x0002,
            Self::TagImportance => 0x0017,
            Self::TagMessageClass => 0x001A,
            Self::TagOriginatorDeliveryReportRequested => 0x0023,
            Self::TagPriority => 0x0026,
            Self::TagReadReceiptRequested => 0x0029,
            Self::TagSensitivity => 0x0036,
            Self::TagSubject => 0x0037,
            Self::TagClientSubmitTime => 0x0039,
            Self::TagSentRepresentingSearchKey => 0x003B,
            Self::TagReceivedByEntryId => 0x003F,
            Self::TagReceivedByName => 0x0040,
            Self::TagSentRepresentingEntryId => 0x0041,
            Self::TagSentRepresentingName => 0x0042,
            Self::TagSentRepresentingAddressType => 0x0064,
            Self::TagSentRepresentingEmailAddress => 0x0065,
            Self::TagConversationTopic => 0x0070,
            Self::TagConversationIndex => 0x0071,
            Self::TagReceivedByAddressType => 0x0075,
            Self::TagReceivedByEmailAddress => 0x0076,
            Self::TagTransportMessageHeaders => 0x007D,
            Self::TagRecipientType => 0x0C15,
            Self::TagReplyRequested => 0x0C17,
            Self::TagSenderEntryId => 0x0C19,
            Self::TagSenderName => 0x0C1A,
            Self::TagSenderSearchKey => 0x0C1D,
            Self::TagSenderAddressType => 0x0C1E,
            Self::TagSenderEmailAddress => 0x0C1F,
            Self::TagDisplayBcc => 0x0E02,
            Self::TagDisplayCc => 0x0E03,
            Self::TagDisplayTo => 0x0E04,
            Self::TagMessageDeliveryTime => 0x0E06,
            Self::TagMessageFlags => 0x0E07,
            Self::TagMessageSize => 0x0E08,
            Self::TagHasAttachments => 0x0E1B,
            Self::TagNormalizedSubject => 0x0E1D,
            Self::TagRtfInSync => 0x0E1F,
            Self::TagAttachSize => 0x0E20,
            Self::TagAttachNumber => 0x0E21,
            Self::TagRecordKey => 0x0FF9,
            Self::TagObjectType => 0x0FFE,
            Self::TagEntryId => 0x0FFF,
            Self::TagBody => 0x1000,
            Self::TagRtfCompressed => 0x1009,
            Self::TagBodyHtml => 0x1013,
            Self::TagInternetMessageId => 0x1035,
            Self::TagDisplayName => 0x3001,
            Self::TagAddressType => 0x3002,
            Self::TagEmailAddress => 0x3003,
            Self::TagCreationTime => 0x3007,
            Self::TagLastModificationTime => 0x3008,
            Self::TagSearchKey => 0x300B,
            Self::TagAttachDataBinary => 0x3701,
            Self::TagAttachEncoding => 0x3702,
            Self::TagAttachExtension => 0x3703,
            Self::TagAttachFilename => 0x3704,
            Self::TagAttachMethod => 0x3705,
            Self::TagAttachLongFilename => 0x3707,
            Self::TagAttachPathname => 0x3708,
            Self::TagAttachRendering => 0x3709,
            Self::TagAttachTag => 0x370A,
            Self::TagRenderingPosition => 0x370B,
            Self::TagAttachMimeTag => 0x370E,
            Self::TagAttachContentId => 0x3712,
            Self::TagInternetCodepage => 0x3FDE,
            Self::TagMessageLocaleId => 0x3FF1,
            Self::TagMessageCodepage => 0x3FFD,
            Self::Other(code) => *code,
        }
    }

    /// Every code survives the trip through the enumeration unchanged.
    pub proof fn lemma_code_round_trip(code: u16)
        ensures
            Self::spec_from_base_type(code).spec_to_base_type() == code,
            Self::spec_from_base_type(code).is_canonical(),
    {
    }

    /// A member survives the trip through its code: as the same member where it
    /// has a name of its own, and always as a member that `==` calls equal.
    pub proof fn lemma_member_round_trip(member: Self)
        ensures
            member !is Other ==> Self::spec_from_base_type(member.spec_to_base_type()) == member,
            member.eq_spec(&Self::spec_from_base_type(member.spec_to_base_type())),
    {
    }

    /// Whether the identifier lies in the range of named properties, which
    /// carry a property set and a name or number of their own.
    pub open spec fn spec_is_named(&self) -> bool {
        self.spec_to_base_type() >= 0x8000
    }

    /// Whether the identifier lies in the range of named properties.
    #[verifier::when_used_as_spec(spec_is_named)]
    pub fn is_named(&self) -> (r: bool)
        ensures
            r == self.spec_is_named(),
    {
        self.to_base_type() >= 0x8000
    }

    /// Members with names of their own that stand for the same code are the
    /// same member.
    pub proof fn lemma_codes_tell_members_apart(a: Self, b: Self)
        requires
            a !is Other,
            b !is Other,
            a.spec_to_base_type() == b.spec_to_base_type(),
        ensures
            a == b,
    {
    }
}

impl PartialEq for PropTag {
    /// Two members are equal when their codes are.
    fn eq(&self, other: &Self) -> (r: bool) {
        self.to_base_type() == other.to_base_type()
    }
}

impl Eq for PropTag {
}

impl vstd::std_specs::cmp::PartialEqSpecImpl for PropTag {
    /// `==` is what `eq_spec` says.
    open spec fn obeys_eq_spec() -> bool {
        true
    }

    /// Two members are equal when their codes are.
    open spec fn eq_spec(&self, other: &Self) -> bool {
        self.spec_to_base_type() == other.spec_to_base_type()
    }
}

} // verus!
