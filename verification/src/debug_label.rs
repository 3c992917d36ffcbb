//! The labels the debug callback prints for a message's severity and type
//! flag words, as the driver reports them.

use vstd::prelude::*;

verus! {

/// The label for a severity flag word: verbose is bit 0, info bit 4,
/// warning bit 8 and error bit 12, each label for exactly that one bit set.
pub open spec fn severity_label_spec(bits: u32) -> Seq<char> {
    if bits == 0x1 {
        "[Verbose]"@
    } else if bits == 0x100 {
        "[Warning]"@
    } else if bits == 0x1000 {
        "[Error]"@
    } else if bits == 0x10 {
        "[Info]"@
    } else {
        "[Unknown]"@
    }
}

/// The label for a message type flag word: general is bit 0, validation
/// bit 1 and performance bit 2, each label for exactly that one bit set.
pub open spec fn message_type_label_spec(bits: u32) -> Seq<char> {
    if bits == 0x1 {
        "[General]"@
    } else if bits == 0x4 {
        "[Performance]"@
    } else if bits == 0x2 {
        "[Validation]"@
    } else {
        "[Unknown]"@
    }
}

/// The printed label for a message severity flag word.
pub fn severity_label(bits: u32) -> (label: &'static str)
    ensures
        label@ == severity_label_spec(bits),
{
    if bits == 0x1 {
        "[Verbose]"
    } else if bits == 0x100 {
        "[Warning]"
    } else if bits == 0x1000 {
        "[Error]"
    } else if bits == 0x10 {
        "[Info]"
    } else {
        "[Unknown]"
    }
}

/// The printed label for a message type flag word.
pub fn message_type_label(bits: u32) -> (label: &'static str)
    ensures
        label@ == message_type_label_spec(bits),
{
    if bits == 0x1 {
        "[General]"
    } else if bits == 0x4 {
        "[Performance]"
    } else if bits == 0x2 {
        "[Validation]"
    } else {
        "[Unknown]"
    }
}

} // verus!
