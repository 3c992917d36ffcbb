use gpu_fill::message_type_label;
use gpu_fill::severity_label;

#[test]
fn severity_labels_for_each_flag() {
    assert_eq!(severity_label(0x1), "[Verbose]");
    assert_eq!(severity_label(0x10), "[Info]");
    assert_eq!(severity_label(0x100), "[Warning]");
    assert_eq!(severity_label(0x1000), "[Error]");
}

#[test]
fn severity_label_for_other_bits() {
    assert_eq!(severity_label(0), "[Unknown]");
    assert_eq!(severity_label(0x101), "[Unknown]");
}

#[test]
fn message_type_labels_for_each_flag() {
    assert_eq!(message_type_label(0x1), "[General]");
    assert_eq!(message_type_label(0x2), "[Validation]");
    assert_eq!(message_type_label(0x4), "[Performance]");
}

#[test]
fn message_type_label_for_other_bits() {
    assert_eq!(message_type_label(0), "[Unknown]");
    assert_eq!(message_type_label(0x7), "[Unknown]");
}
