//! Descriptor and signature encoding, class-name translation, and the
//! dotted-name validation.

use jni_marshal::signature::JavaClassNameFor;
use jni_marshal::signature::JavaSignatureFor;
use jni_marshal::signature::NativeType;
use jni_marshal::signature::class_name_to_slash;
use jni_marshal::signature::descriptor_has_dot;
use jni_marshal::signature::method_signature;
use jni_marshal::signature::panic_if_bad_sigs;
use jni_marshal::signature::signature_for;
use jni_marshal::signature::str_eq;

#[test]
fn primitive_descriptors() {
    assert_eq!(signature_for(&NativeType::Unit), "V");
    assert_eq!(signature_for(&NativeType::Bool), "Z");
    assert_eq!(signature_for(&NativeType::I8), "B");
    assert_eq!(signature_for(&NativeType::U8), "B");
    assert_eq!(signature_for(&NativeType::I16), "S");
    assert_eq!(signature_for(&NativeType::I32), "I");
    assert_eq!(signature_for(&NativeType::I64), "J");
    assert_eq!(signature_for(&NativeType::Ch), "C");
    assert_eq!(signature_for(&NativeType::Float), "F");
    assert_eq!(signature_for(&NativeType::Double), "D");
}

#[test]
fn primitive_descriptors_distinct() {
    // No collisions among the primitive codes except the deliberate one:
    // signed and unsigned bytes both travel as the JVM byte.
    let codes = [
        signature_for(&NativeType::Unit),
        signature_for(&NativeType::Bool),
        signature_for(&NativeType::I8),
        signature_for(&NativeType::I16),
        signature_for(&NativeType::I32),
        signature_for(&NativeType::I64),
        signature_for(&NativeType::Ch),
        signature_for(&NativeType::Float),
        signature_for(&NativeType::Double),
    ];
    for i in 0..codes.len() {
        for j in 0..codes.len() {
            if i != j {
                assert_ne!(codes[i], codes[j]);
            }
        }
    }
    assert_eq!(signature_for(&NativeType::U8), signature_for(&NativeType::I8));
}

#[test]
fn object_and_array_descriptors() {
    assert_eq!(signature_for(&NativeType::Str), "Ljava/lang/String;");
    assert_eq!(
        signature_for(&NativeType::Object(String::from("com/example/Widget"))),
        "Lcom/example/Widget;"
    );
    assert_eq!(signature_for(&NativeType::Array(Box::new(NativeType::I32))), "[I");
    assert_eq!(signature_for(&NativeType::Array(Box::new(NativeType::Str))), "[Ljava/lang/String;");
    assert_eq!(
        signature_for(&NativeType::Array(Box::new(NativeType::Array(Box::new(NativeType::I8))))),
        "[[B"
    );
}

#[test]
fn method_signatures() {
    let sig = method_signature(
        &vec![NativeType::I32],
        &NativeType::Object(String::from("java/lang/Integer")),
    );
    assert_eq!(sig, "(I)Ljava/lang/Integer;");
    let sig2 = method_signature(&vec![NativeType::Str, NativeType::I32], &NativeType::Unit);
    assert_eq!(sig2, "(Ljava/lang/String;I)V");
    let sig3 = method_signature(&vec![], &NativeType::Str);
    assert_eq!(sig3, "()Ljava/lang/String;");
}

#[test]
fn dotted_names_translate_to_slash_form() {
    assert_eq!(class_name_to_slash("com.example.Widget"), "com/example/Widget");
    assert_eq!(class_name_to_slash("com.example.Widget$Inner"), "com/example/Widget$Inner");
    assert_eq!(class_name_to_slash("Widget"), "Widget");
    assert_eq!(class_name_to_slash(""), "");
    assert_eq!(class_name_to_slash("a.b.c.d"), "a/b/c/d");
}

#[test]
fn dot_detection() {
    assert!(descriptor_has_dot("Ljava.lang.String;"));
    assert!(descriptor_has_dot("."));
    assert!(!descriptor_has_dot("Ljava/lang/String;"));
    assert!(!descriptor_has_dot(""));
    assert!(!descriptor_has_dot("(I)V"));
}

#[test]
fn clean_signatures_pass_the_debug_guard() {
    panic_if_bad_sigs(&vec![String::from("I"), String::from("Ljava/lang/String;")]);
    panic_if_bad_sigs(&vec![]);
}

#[test]
fn string_comparison() {
    assert!(str_eq("getName", "getName"));
    assert!(!str_eq("getName", "getname"));
    assert!(!str_eq("a", "ab"));
    assert!(str_eq("", ""));
}

#[test]
fn trait_encoders_match_the_type_encoder() {
    assert_eq!(<() as JavaSignatureFor>::signature_for(), "V");
    assert_eq!(<bool as JavaSignatureFor>::signature_for(), "Z");
    assert_eq!(<i8 as JavaSignatureFor>::signature_for(), "B");
    assert_eq!(<u8 as JavaSignatureFor>::signature_for(), "B");
    assert_eq!(<i16 as JavaSignatureFor>::signature_for(), "S");
    assert_eq!(<i32 as JavaSignatureFor>::signature_for(), "I");
    assert_eq!(<i64 as JavaSignatureFor>::signature_for(), "J");
    assert_eq!(<char as JavaSignatureFor>::signature_for(), "C");
    assert_eq!(<String as JavaSignatureFor>::signature_for(), "Ljava/lang/String;");
    assert_eq!(<String as JavaClassNameFor>::java_class_name(), "java/lang/String");
}
