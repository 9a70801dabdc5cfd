//! Signature encoding: JVM type descriptors and method signatures.
//!
//! Every supported native type maps deterministically to a JVM type
//! descriptor (`Z`, `B`, `C`, `S`, `I`, `J`, `F`, `D`, `V`, `L<class>;`,
//! `[<descriptor>`).  A method signature is `(` + the argument descriptors in
//! order + `)` + the return descriptor, with no separators.  Class names must
//! be slash-separated; a `.` anywhere in a descriptor is a caller
//! configuration error and is flagged before any lookup is attempted.

use vstd::prelude::*;

verus! {

/// The closed set of native types that can cross the call boundary.
///
/// `I8` and `U8` both travel as JVM signed bytes: an unsigned 8-bit value is
/// byte-reinterpreted, not numerically converted.  `Object` carries a
/// slash-separated class name; `Array` is a contiguous sequence of any
/// supported element type.
#[derive(Debug)]
pub enum NativeType {
    Unit,
    Bool,
    I8,
    U8,
    I16,
    I32,
    I64,
    Ch,
    Float,
    Double,
    Str,
    Object(String),
    Array(Box<NativeType>),
}

/// The descriptor character sequence for a native type.
pub open spec fn descriptor_of(t: NativeType) -> Seq<char>
    decreases t,
{
    match t {
        NativeType::Unit => "V"@,
        NativeType::Bool => "Z"@,
        NativeType::I8 => "B"@,
        NativeType::U8 => "B"@,
        NativeType::I16 => "S"@,
        NativeType::I32 => "I"@,
        NativeType::I64 => "J"@,
        NativeType::Ch => "C"@,
        NativeType::Float => "F"@,
        NativeType::Double => "D"@,
        NativeType::Str => "L"@ + "java/lang/String"@ + ";"@,
        NativeType::Object(name) => "L"@ + name@ + ";"@,
        NativeType::Array(el) => "["@ + descriptor_of(*el),
    }
}

/// The descriptors of a sequence of argument types, concatenated in order.
pub open spec fn descriptors_of(ts: Seq<NativeType>) -> Seq<char>
    decreases ts.len(),
{
    if ts.len() == 0 {
        Seq::<char>::empty()
    } else {
        descriptor_of(ts[0]) + descriptors_of(ts.drop_first())
    }
}

/// The full method signature: `(` + argument descriptors + `)` + return
/// descriptor.
pub open spec fn method_sig_of(args: Seq<NativeType>, ret: NativeType) -> Seq<char> {
    "("@ + descriptors_of(args) + ")"@ + descriptor_of(ret)
}

/// True when the character sequence contains a `.`.
pub open spec fn has_dot(s: Seq<char>) -> bool {
    exists|i: int| 0 <= i < s.len() && s[i] == '.'
}

/// The documented dotted-to-slash class name translation: every `.` becomes
/// `/`; all other characters, `$` for inner classes included, are kept.
pub open spec fn dot_to_slash(s: Seq<char>) -> Seq<char> {
    s.map_values(|c: char| if c == '.' { '/' } else { c })
}

/// Maps the native type to its JVM type descriptor string.
pub fn signature_for(t: &NativeType) -> (r: String)
    ensures
        r@ == descriptor_of(*t),
    decreases *t,
{
    match t {
        NativeType::Unit => String::from_str("V"),
        NativeType::Bool => String::from_str("Z"),
        NativeType::I8 => String::from_str("B"),
        NativeType::U8 => String::from_str("B"),
        NativeType::I16 => String::from_str("S"),
        NativeType::I32 => String::from_str("I"),
        NativeType::I64 => String::from_str("J"),
        NativeType::Ch => String::from_str("C"),
        NativeType::Float => String::from_str("F"),
        NativeType::Double => String::from_str("D"),
        NativeType::Str => {
            let mut s = String::from_str("L");
            s.append("java/lang/String");
            s.append(";");
            s
        },
        NativeType::Object(name) => {
            let mut s = String::from_str("L");
            s.append(name.as_str());
            s.append(";");
            s
        },
        NativeType::Array(el) => {
            let mut s = String::from_str("[");
            let inner = signature_for(el);
            s.append(inner.as_str());
            s
        },
    }
}

/// Builds the method signature `(` + argument descriptors + `)` + return
/// descriptor, in declaration order with no separators.
pub fn method_signature(args: &Vec<NativeType>, ret: &NativeType) -> (r: String)
    ensures
        r@ == method_sig_of(args@, *ret),
{
    let mut s = String::from_str("(");
    let mut i: usize = 0;
    while i < args.len()
        invariant
            i <= args@.len(),
            s@ == "("@ + descriptors_of(args@.take(i as int)),
        decreases args@.len() - i,
    {
        let d = signature_for(&args[i]);
        s.append(d.as_str());
        proof {
            lemma_descriptors_of_take(args@, i as int);
        }
        i = i + 1;
    }
    proof {
        assert(args@.take(args@.len() as int) =~= args@);
    }
    s.append(")");
    let rd = signature_for(ret);
    s.append(rd.as_str());
    s
}

/// Splitting the descriptor concatenation at position `i`.
proof fn lemma_descriptors_of_take(ts: Seq<NativeType>, i: int)
    requires
        0 <= i < ts.len(),
    ensures
        descriptors_of(ts.take(i + 1)) == descriptors_of(ts.take(i)) + descriptor_of(ts[i]),
    decreases i,
{
    let a = ts.take(i + 1);
    let b = ts.take(i);
    if i == 0 {
        assert(a.drop_first() =~= Seq::<NativeType>::empty());
        assert(b =~= Seq::<NativeType>::empty());
        assert(descriptors_of(a) == descriptor_of(a[0]) + descriptors_of(a.drop_first()));
        assert(descriptors_of(a) =~= descriptors_of(b) + descriptor_of(ts[i]));
    } else {
        lemma_descriptors_of_take(ts.drop_first(), i - 1);
        assert(a.drop_first() =~= ts.drop_first().take(i));
        assert(b.drop_first() =~= ts.drop_first().take(i - 1));
        assert(ts.drop_first()[i - 1] == ts[i]);
        assert(descriptors_of(a) == descriptor_of(ts[0]) + descriptors_of(a.drop_first()));
        assert(descriptors_of(b) == descriptor_of(ts[0]) + descriptors_of(b.drop_first()));
        assert(descriptors_of(a) =~= descriptors_of(b) + descriptor_of(ts[i]));
    }
}

/// Compares two string slices character by character.
pub fn str_eq(a: &str, b: &str) -> (r: bool)
    ensures
        r <==> a@ == b@,
{
    let an = a.unicode_len();
    let bn = b.unicode_len();
    if an != bn {
        return false;
    }
    let mut i: usize = 0;
    while i < an
        invariant
            an == a@.len(),
            bn == b@.len(),
            an == bn,
            i <= an,
            forall|j: int| 0 <= j < i ==> a@[j] == b@[j],
        decreases an - i,
    {
        if a.get_char(i) != b.get_char(i) {
            return false;
        }
        i = i + 1;
    }
    proof {
        assert(a@ =~= b@);
    }
    true
}

/// True when the string contains a `.` character anywhere.
pub fn descriptor_has_dot(s: &str) -> (r: bool)
    ensures
        r == has_dot(s@),
{
    let n = s.unicode_len();
    let mut i: usize = 0;
    while i < n
        invariant
            n == s@.len(),
            i <= n,
            forall|j: int| 0 <= j < i ==> s@[j] != '.',
        decreases n - i,
    {
        if s.get_char(i) == '.' {
            return true;
        }
        i = i + 1;
    }
    false
}

/// Debug-time guard against class names given in dotted form.
///
/// The precondition excludes every signature that contains a `.`, so the
/// run-time check the name promises is discharged statically: on all
/// admitted inputs there is nothing to do.  The general flagging law —
/// any descriptor string containing a `.` is detected — is the exact
/// contract of [`descriptor_has_dot`], which the call orchestrators apply
/// before any lookup.
pub fn panic_if_bad_sigs(sigs: &Vec<String>)
    requires
        forall|i: int| 0 <= i < sigs@.len() ==> !has_dot(#[trigger] sigs@[i]@),
{
}

/// Translates a dotted Java class name to the slash-separated form the
/// native interface needs, keeping `$` separators of nested classes intact.
pub fn class_name_to_slash(name: &str) -> (r: String)
    ensures
        r@ == dot_to_slash(name@),
{
    let n = name.unicode_len();
    let mut s = String::new();
    let mut i: usize = 0;
    while i < n
        invariant
            n == name@.len(),
            i <= n,
            s@ == dot_to_slash(name@.take(i as int)),
        decreases n - i,
    {
        let c = name.get_char(i);
        if c == '.' {
            s.append("/");
            proof {
                reveal_strlit("/");
            }
        } else {
            let piece = name.substring_char(i, i + 1);
            s.append(piece);
        }
        proof {
            assert(dot_to_slash(name@.take(i + 1)) =~= dot_to_slash(name@.take(i as int)).push(
                if name@[i as int] == '.' {
                    '/'
                } else {
                    name@[i as int]
                },
            ));
            assert(name@.take(i as int + 1)[i as int] == name@[i as int]);
            if name@[i as int] == '.' {
                assert(s@ =~= dot_to_slash(name@.take(i as int)).push('/'));
            } else {
                assert(name@.subrange(i as int, i as int + 1) =~= seq![name@[i as int]]);
                assert(s@ =~= dot_to_slash(name@.take(i as int)).push(name@[i as int]));
            }
        }
        i = i + 1;
    }
    proof {
        assert(name@.take(n as int) =~= name@);
    }
    s
}


/// True when the character sequence contains the given character.
pub open spec fn has_char(s: Seq<char>, c: char) -> bool {
    exists|i: int| 0 <= i < s.len() && s[i] == c
}

/// A well-formed native type: every class name is nonempty,
/// slash-separated (never dotted) and free of the `;` terminator.
pub open spec fn type_ok(t: NativeType) -> bool
    decreases t,
{
    match t {
        NativeType::Object(name) => name@.len() > 0 && !has_dot(name@) && !has_char(name@, ';'),
        NativeType::Array(el) => type_ok(*el),
        _ => true,
    }
}

/// A concatenation contains a `.` exactly when one of its parts does.
pub proof fn lemma_has_dot_concat(a: Seq<char>, b: Seq<char>)
    ensures
        has_dot(a + b) == (has_dot(a) || has_dot(b)),
{
    if has_dot(a) {
        let i = choose|i: int| 0 <= i < a.len() && a[i] == '.';
        assert((a + b)[i] == '.');
    }
    if has_dot(b) {
        let i = choose|i: int| 0 <= i < b.len() && b[i] == '.';
        assert((a + b)[a.len() + i] == '.');
    }
    if has_dot(a + b) {
        let i = choose|i: int| 0 <= i < (a + b).len() && (a + b)[i] == '.';
        if i < a.len() {
            assert(a[i] == '.');
        } else {
            assert(b[i - a.len()] == '.');
        }
    }
}

/// None of the fixed descriptor fragments contains a `.`.
proof fn lemma_literals_no_dot()
    ensures
        !has_dot("V"@),
        !has_dot("Z"@),
        !has_dot("B"@),
        !has_dot("S"@),
        !has_dot("I"@),
        !has_dot("J"@),
        !has_dot("C"@),
        !has_dot("F"@),
        !has_dot("D"@),
        !has_dot("L"@),
        !has_dot(";"@),
        !has_dot("["@),
        !has_dot("("@),
        !has_dot(")"@),
        !has_dot("java/lang/String"@),
{
    reveal_strlit("V");
    reveal_strlit("Z");
    reveal_strlit("B");
    reveal_strlit("S");
    reveal_strlit("I");
    reveal_strlit("J");
    reveal_strlit("C");
    reveal_strlit("F");
    reveal_strlit("D");
    reveal_strlit("L");
    reveal_strlit(";");
    reveal_strlit("[");
    reveal_strlit("(");
    reveal_strlit(")");
    reveal_strlit("java/lang/String");
}

/// A descriptor derived from a well-formed type never contains a `.`:
/// a dot in a descriptor can only come from a class name given in dotted
/// form, which well-formedness excludes.
pub proof fn lemma_descriptor_no_dot(t: NativeType)
    requires
        type_ok(t),
    ensures
        !has_dot(descriptor_of(t)),
    decreases t,
{
    lemma_literals_no_dot();
    match t {
        NativeType::Str => {
            lemma_has_dot_concat("L"@, "java/lang/String"@);
            lemma_has_dot_concat("L"@ + "java/lang/String"@, ";"@);
        },
        NativeType::Object(name) => {
            lemma_has_dot_concat("L"@, name@);
            lemma_has_dot_concat("L"@ + name@, ";"@);
        },
        NativeType::Array(el) => {
            lemma_descriptor_no_dot(*el);
            lemma_has_dot_concat("["@, descriptor_of(*el));
        },
        _ => {},
    }
}

/// A method signature built from well-formed argument and return types
/// never contains a `.`.
pub proof fn lemma_method_sig_no_dot(args: Seq<NativeType>, ret: NativeType)
    requires
        forall|i: int| 0 <= i < args.len() ==> type_ok(#[trigger] args[i]),
        type_ok(ret),
    ensures
        !has_dot(method_sig_of(args, ret)),
{
    lemma_literals_no_dot();
    lemma_descriptors_no_dot(args);
    lemma_descriptor_no_dot(ret);
    lemma_has_dot_concat("("@, descriptors_of(args));
    lemma_has_dot_concat("("@ + descriptors_of(args), ")"@);
    lemma_has_dot_concat(("("@ + descriptors_of(args)) + ")"@, descriptor_of(ret));
    assert(method_sig_of(args, ret) == (("("@ + descriptors_of(args)) + ")"@) + descriptor_of(
        ret,
    )) by {
        assert(method_sig_of(args, ret) =~= (("("@ + descriptors_of(args)) + ")"@)
            + descriptor_of(ret));
    }
}

/// Concatenated descriptors of well-formed types never contain a `.`.
proof fn lemma_descriptors_no_dot(args: Seq<NativeType>)
    requires
        forall|i: int| 0 <= i < args.len() ==> type_ok(#[trigger] args[i]),
    ensures
        !has_dot(descriptors_of(args)),
    decreases args.len(),
{
    if args.len() == 0 {
        assert(!has_dot(Seq::<char>::empty()));
    } else {
        lemma_descriptor_no_dot(args[0]);
        lemma_descriptors_no_dot(args.drop_first());
        lemma_has_dot_concat(descriptor_of(args[0]), descriptors_of(args.drop_first()));
    }
}

/// The native interface maps the two types to the same JVM type: they are
/// equal, or they are the signed and unsigned byte (both transported as
/// the JVM byte), or one is the native string type and the other its
/// class-wrapper spelling, element-wise for arrays.
pub open spec fn jvm_equiv(t1: NativeType, t2: NativeType) -> bool
    decreases t1,
{
    match (t1, t2) {
        (NativeType::I8, NativeType::U8) => true,
        (NativeType::U8, NativeType::I8) => true,
        (NativeType::Str, NativeType::Object(n)) => n@ == "java/lang/String"@,
        (NativeType::Object(n), NativeType::Str) => n@ == "java/lang/String"@,
        (NativeType::Object(a), NativeType::Object(b)) => a@ == b@,
        (NativeType::Array(a), NativeType::Array(b)) => jvm_equiv(*a, *b),
        _ => t1 == t2,
    }
}

/// The descriptor encoding is injective up to identical JVM types:
/// distinct well-formed types never produce colliding descriptors, except
/// where the native interface itself treats them identically — the two
/// byte types share `B` and the string type is its own class wrapper.
/// In particular no two of the primitive codes collide.
pub proof fn lemma_descriptor_injective(t1: NativeType, t2: NativeType)
    requires
        type_ok(t1),
        type_ok(t2),
        descriptor_of(t1) == descriptor_of(t2),
    ensures
        jvm_equiv(t1, t2),
    decreases t1,
{
    reveal_strlit("V");
    reveal_strlit("Z");
    reveal_strlit("B");
    reveal_strlit("S");
    reveal_strlit("I");
    reveal_strlit("J");
    reveal_strlit("C");
    reveal_strlit("F");
    reveal_strlit("D");
    reveal_strlit("L");
    reveal_strlit(";");
    reveal_strlit("[");
    reveal_strlit("java/lang/String");
    let d1 = descriptor_of(t1);
    let d2 = descriptor_of(t2);
    match (t1, t2) {
        (NativeType::Array(a), NativeType::Array(b)) => {
            assert(("["@ + descriptor_of(*a)).drop_first() =~= descriptor_of(*a));
            assert(("["@ + descriptor_of(*b)).drop_first() =~= descriptor_of(*b));
            lemma_descriptor_injective(*a, *b);
        },
        (NativeType::Str, NativeType::Object(n)) => {
            lemma_object_name_recovered("java/lang/String"@, n@);
        },
        (NativeType::Object(n), NativeType::Str) => {
            lemma_object_name_recovered(n@, "java/lang/String"@);
        },
        (NativeType::Object(a), NativeType::Object(b)) => {
            lemma_object_name_recovered(a@, b@);
        },
        _ => {
            assert(d1[0] == d2[0]);
        },
    }
}

/// Equal object descriptors come from equal class names.
proof fn lemma_object_name_recovered(a: Seq<char>, b: Seq<char>)
    requires
        ("L"@ + a) + ";"@ == ("L"@ + b) + ";"@,
    ensures
        a == b,
{
    reveal_strlit("L");
    reveal_strlit(";");
    let d = ("L"@ + a) + ";"@;
    assert(d.len() == a.len() + 2);
    assert(d.len() == b.len() + 2);
    assert(a =~= b) by {
        assert forall|i: int| 0 <= i < a.len() implies a[i] == b[i] by {
            assert(d[i + 1] == a[i]);
            assert((("L"@ + b) + ";"@)[i + 1] == b[i]);
        }
    }
}


/// The per-type capability of the signature encoder: a native type knows
/// the JVM type descriptor it travels under.
pub trait JavaSignatureFor {
    /// The member of the supported type set this implementation encodes.
    spec fn java_type() -> NativeType;

    /// The JVM type descriptor of this native type.
    fn signature_for() -> (r: String)
        ensures
            r@ == descriptor_of(Self::java_type()),
    ;
}

impl JavaSignatureFor for () {
    open spec fn java_type() -> NativeType {
        NativeType::Unit
    }

    fn signature_for() -> (r: String) {
        String::from_str("V")
    }
}

impl JavaSignatureFor for bool {
    open spec fn java_type() -> NativeType {
        NativeType::Bool
    }

    fn signature_for() -> (r: String) {
        String::from_str("Z")
    }
}

impl JavaSignatureFor for i8 {
    open spec fn java_type() -> NativeType {
        NativeType::I8
    }

    fn signature_for() -> (r: String) {
        String::from_str("B")
    }
}

impl JavaSignatureFor for u8 {
    open spec fn java_type() -> NativeType {
        NativeType::U8
    }

    fn signature_for() -> (r: String) {
        String::from_str("B")
    }
}

impl JavaSignatureFor for i16 {
    open spec fn java_type() -> NativeType {
        NativeType::I16
    }

    fn signature_for() -> (r: String) {
        String::from_str("S")
    }
}

impl JavaSignatureFor for i32 {
    open spec fn java_type() -> NativeType {
        NativeType::I32
    }

    fn signature_for() -> (r: String) {
        String::from_str("I")
    }
}

impl JavaSignatureFor for i64 {
    open spec fn java_type() -> NativeType {
        NativeType::I64
    }

    fn signature_for() -> (r: String) {
        String::from_str("J")
    }
}

impl JavaSignatureFor for char {
    open spec fn java_type() -> NativeType {
        NativeType::Ch
    }

    fn signature_for() -> (r: String) {
        String::from_str("C")
    }
}

impl JavaSignatureFor for String {
    open spec fn java_type() -> NativeType {
        NativeType::Str
    }

    fn signature_for() -> (r: String) {
        let mut s = String::from_str("L");
        s.append("java/lang/String");
        s.append(";");
        s
    }
}

/// The class name the native interface needs is separated by `/`, never
/// by `.`: a dotted name is the classic source of failed lookups.
pub trait JavaClassNameFor {
    /// The slash-separated class name, as a character sequence.
    spec fn class_name_spec() -> Seq<char>;

    /// The slash-separated class name the native interface needs.
    fn java_class_name() -> (r: &'static str)
        ensures
            r@ == Self::class_name_spec(),
    ;
}

impl JavaClassNameFor for String {
    open spec fn class_name_spec() -> Seq<char> {
        "java/lang/String"@
    }

    fn java_class_name() -> (r: &'static str) {
        "java/lang/String"
    }
}

} // verus!
