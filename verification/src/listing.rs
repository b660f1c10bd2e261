//! How the parts of a class are shown as text.

use vstd::prelude::*;
use crate::attribute::code::Code;
use crate::attribute::defs::{
    Attribute, LineNumberTable, LineNumberTableItem, SourceFile, StackMapFrame, StackMapTable,
    VerificationTypeInfo,
};
use crate::attribute::instruction::{instruction_text, Instruction};
use crate::class_file::{AccessFlag, AccessFlags, ClassFile};
use crate::constant::listing;
use crate::field::{Field, FieldAccessFlag, FieldAccessFlags};
use crate::array::Array;
use crate::method::{Method, MethodAccessFlag, MethodAccessFlags};
use crate::object::Objectref;
use crate::operand::{item_text, Item};
use crate::table::Key;
use crate::string_pool::{texts_of, StringPool};
use crate::text::{
    join, joined, lemma_texts_push, number_text, plain, push_index, with_index,
    with_indices,
};

verus! {

/// A 16-bit number as an index.
pub open spec fn short_index(n: u16) -> usize {
    n as usize
}

/// Computes `short_index`.
pub fn short_as_index(n: u16) -> (r: usize)
    ensures
        r == short_index(n),
{
    n as usize
}

/// The text that shows a source-file attribute.
pub open spec fn source_file_text(attribute: SourceFile) -> Seq<char> {
    "SourceFile: #"@ + number_text(short_index(attribute.sourcefile_index))
}

impl SourceFile {
    /// The text that shows the attribute.
    pub fn to_string(&self) -> (r: String)
        ensures
            r@ == source_file_text(*self),
    {
        with_index("SourceFile: #", short_as_index(self.sourcefile_index))
    }
}

/// The text that shows one entry of a line-number table.
pub open spec fn line_number_text(item: LineNumberTableItem) -> Seq<char> {
    "  line "@ + number_text(short_index(item.line_number)) + ": "@ + number_text(
        short_index(item.start_pc),
    )
}

impl LineNumberTableItem {
    /// The text that shows the entry.
    pub fn to_string(&self) -> (r: String)
        ensures
            r@ == line_number_text(*self),
    {
        with_indices(
            "  line ",
            short_as_index(self.line_number),
            ": ",
            short_as_index(self.start_pc),
        )
    }
}

/// The text that shows a line-number table.
pub open spec fn line_number_table_text(entries: Seq<LineNumberTableItem>) -> Seq<char> {
    "LineNumberTable:\n  "@ + joined(
        Seq::new(entries.len(), |i: int| line_number_text(entries[i])),
        "\n  "@,
    )
}

impl LineNumberTable {
    /// The text that shows the table.
    pub fn to_string(&self) -> (r: String)
        ensures
            r@ == line_number_table_text(self.line_number_tables@),
    {
        let mut lines: Vec<String> = Vec::new();
        let mut i: usize = 0;
        while i < self.line_number_tables.len()
            invariant
                i <= self.line_number_tables@.len(),
                texts_of(lines@) == Seq::new(
                    i as nat,
                    |j: int| line_number_text(self.line_number_tables@[j]),
                ),
            decreases self.line_number_tables@.len() - i,
        {
            let line = self.line_number_tables[i].to_string();
            proof {
                lemma_texts_push(lines@, line);
            }
            lines.push(line);
            i += 1;
            assert(texts_of(lines@) =~= Seq::new(
                i as nat,
                |j: int| line_number_text(self.line_number_tables@[j]),
            ));
        }
        let mut text = String::from_str("LineNumberTable:\n  ");
        let body = join(&lines, "\n  ");
        text.append(body.as_str());
        text
    }
}

/// The text that shows a verification type.
pub open spec fn verification_type_text(kind: VerificationTypeInfo) -> Seq<char> {
    match kind {
        VerificationTypeInfo::TopVariableInfo => "top"@,
        VerificationTypeInfo::IntegerVariableInfo => "int"@,
        VerificationTypeInfo::FloatVariableInfo => "float"@,
        VerificationTypeInfo::DoubleVariableInfo => "double"@,
        VerificationTypeInfo::LongVariableInfo => "long"@,
        VerificationTypeInfo::NullVariableInfo => "null"@,
        VerificationTypeInfo::UninitializedThisVariableInfo => "uninitialized_this"@,
        VerificationTypeInfo::ObjectVariableInfo(index) => "object_variable: #"@ + number_text(
            index,
        ),
        VerificationTypeInfo::UninitializedVariableInfo(index) => "uninitialized_variable: #"@
            + number_text(index),
    }
}

impl VerificationTypeInfo {
    /// The text that shows the verification type.
    pub fn to_string(&self) -> (r: String)
        ensures
            r@ == verification_type_text(*self),
    {
        match self {
            VerificationTypeInfo::TopVariableInfo => plain("top"),
            VerificationTypeInfo::IntegerVariableInfo => plain("int"),
            VerificationTypeInfo::FloatVariableInfo => plain("float"),
            VerificationTypeInfo::DoubleVariableInfo => plain("double"),
            VerificationTypeInfo::LongVariableInfo => plain("long"),
            VerificationTypeInfo::NullVariableInfo => plain("null"),
            VerificationTypeInfo::UninitializedThisVariableInfo => plain("uninitialized_this"),
            VerificationTypeInfo::ObjectVariableInfo(index) => with_index(
                "object_variable: #",
                *index,
            ),
            VerificationTypeInfo::UninitializedVariableInfo(index) => with_index(
                "uninitialized_variable: #",
                *index,
            ),
        }
    }
}

/// The texts of verification types, joined by commas.
pub open spec fn verification_types_text(kinds: Seq<VerificationTypeInfo>) -> Seq<char> {
    joined(Seq::new(kinds.len(), |i: int| verification_type_text(kinds[i])), ", "@)
}

/// The texts of verification types, joined by commas.
pub fn show_verification_types(kinds: &Vec<VerificationTypeInfo>) -> (r: String)
    ensures
        r@ == verification_types_text(kinds@),
{
    let mut lines: Vec<String> = Vec::new();
    let mut i: usize = 0;
    while i < kinds.len()
        invariant
            i <= kinds@.len(),
            texts_of(lines@) == Seq::new(i as nat, |j: int| verification_type_text(kinds@[j])),
        decreases kinds@.len() - i,
    {
        let line = kinds[i].to_string();
        proof {
            lemma_texts_push(lines@, line);
        }
        lines.push(line);
        i += 1;
        assert(texts_of(lines@) =~= Seq::new(
            i as nat,
            |j: int| verification_type_text(kinds@[j]),
        ));
    }
    join(&lines, ", ")
}

/// The text that shows a stack-map frame: its type, its kind and what it holds.
pub open spec fn stack_map_frame_text(frame: &StackMapFrame) -> Seq<char> {
    match frame {
        StackMapFrame::SameFrame(frame) => number_text(frame.frame_type) + "   /* same */"@,
        StackMapFrame::SameLocals1StackItemFrame => "/* same_locals_1_stack_item */"@,
        StackMapFrame::SameLocals1StackItemFrameExtended => {
            "/* same_locals_1_stack_item_extended */"@
        },
        StackMapFrame::ChopFrame(frame) => number_text(frame.frame_type)
            + "   /* chop */\n  offset_delta = "@ + number_text(frame.offset_delta),
        StackMapFrame::SameFrameExtended => "/* same_frame_extended */"@,
        StackMapFrame::AppendFrame(frame) => number_text(frame.frame_type)
            + "   /* append */\n    offset_delta = "@ + number_text(frame.offset_delta)
            + "\n    locals = ["@ + verification_types_text(frame.locals@) + "]"@,
        StackMapFrame::FullFrame(frame) => number_text(frame.frame_type)
            + "   /* full_frame */\n    offset_delta = "@ + number_text(frame.offset_delta)
            + "\n    locals = ["@ + verification_types_text(frame.locals@) + "]\n    stack = ["@
            + verification_types_text(frame.stack@) + "]"@,
    }
}

impl StackMapFrame {
    /// The text that shows the frame.
    pub fn to_string(&self) -> (r: String)
        ensures
            r@ == stack_map_frame_text(self),
    {
        match self {
            StackMapFrame::SameFrame(frame) => {
                let mut text = String::new();
                push_index(&mut text, frame.frame_type);
                text.append("   /* same */");
                assert(text@ =~= stack_map_frame_text(self));
                text
            },
            StackMapFrame::SameLocals1StackItemFrame => plain("/* same_locals_1_stack_item */"),
            StackMapFrame::SameLocals1StackItemFrameExtended => plain(
                "/* same_locals_1_stack_item_extended */",
            ),
            StackMapFrame::ChopFrame(frame) => {
                let mut text = String::new();
                push_index(&mut text, frame.frame_type);
                text.append("   /* chop */\n  offset_delta = ");
                push_index(&mut text, frame.offset_delta);
                assert(text@ =~= stack_map_frame_text(self));
                text
            },
            StackMapFrame::SameFrameExtended => plain("/* same_frame_extended */"),
            StackMapFrame::AppendFrame(frame) => {
                let mut text = String::new();
                push_index(&mut text, frame.frame_type);
                text.append("   /* append */\n    offset_delta = ");
                push_index(&mut text, frame.offset_delta);
                text.append("\n    locals = [");
                let locals = show_verification_types(&frame.locals);
                text.append(locals.as_str());
                text.append("]");
                assert(text@ =~= stack_map_frame_text(self));
                text
            },
            StackMapFrame::FullFrame(frame) => {
                let mut text = String::new();
                push_index(&mut text, frame.frame_type);
                text.append("   /* full_frame */\n    offset_delta = ");
                push_index(&mut text, frame.offset_delta);
                text.append("\n    locals = [");
                let locals = show_verification_types(&frame.locals);
                text.append(locals.as_str());
                text.append("]\n    stack = [");
                let stack = show_verification_types(&frame.stack);
                text.append(stack.as_str());
                text.append("]");
                assert(text@ =~= stack_map_frame_text(self));
                text
            },
        }
    }
}

/// The text that shows a stack-map table: the number of its frames, and a line for each.
pub open spec fn stack_map_table_text(table: &StackMapTable) -> Seq<char> {
    "StackMapTable: number_of_entries = "@ + number_text(table.number_of_entries) + "\n  "@
        + joined(
        Seq::new(
            table.stack_map_frame@.len(),
            |i: int| "frame_type = "@ + stack_map_frame_text(&table.stack_map_frame@[i]),
        ),
        "\n  "@,
    )
}

impl StackMapTable {
    /// The text that shows the table.
    pub fn to_string(&self) -> (r: String)
        ensures
            r@ == stack_map_table_text(self),
    {
        let mut lines: Vec<String> = Vec::new();
        let mut i: usize = 0;
        while i < self.stack_map_frame.len()
            invariant
                i <= self.stack_map_frame@.len(),
                texts_of(lines@) == Seq::new(
                    i as nat,
                    |j: int| "frame_type = "@ + stack_map_frame_text(&self.stack_map_frame@[j]),
                ),
            decreases self.stack_map_frame@.len() - i,
        {
            let mut line = String::from_str("frame_type = ");
            let frame = self.stack_map_frame[i].to_string();
            line.append(frame.as_str());
            proof {
                lemma_texts_push(lines@, line);
            }
            lines.push(line);
            i += 1;
            assert(texts_of(lines@) =~= Seq::new(
                i as nat,
                |j: int| "frame_type = "@ + stack_map_frame_text(&self.stack_map_frame@[j]),
            ));
        }
        let mut text = with_index("StackMapTable: number_of_entries = ", self.number_of_entries);
        text.append("\n  ");
        let body = join(&lines, "\n  ");
        text.append(body.as_str());
        text
    }
}

/// The lines that show the instructions of `code` from the entry `from` on, added to
/// `lines`: for each entry that is no padding its place and its instruction.
pub open spec fn code_lines_from(code: Seq<Instruction>, lines: Seq<Seq<char>>, from: int) -> Seq<
    Seq<char>,
>
    decreases code.len() - from,
{
    if from < 0 || from >= code.len() {
        lines
    } else if code[from] is Noope {
        code_lines_from(code, lines, from + 1)
    } else {
        code_lines_from(
            code,
            lines.push(place_text(from) + ": "@ + instruction_text(&code[from])),
            from + 1,
        )
    }
}

/// The decimal text of a place.
pub open spec fn place_text(place: int) -> Seq<char> {
    number_text(place as usize)
}

/// The lines that show the instructions of `code`.
pub fn show_code(code: &Vec<Instruction>) -> (r: Vec<String>)
    ensures
        texts_of(r@) == code_lines_from(code@, Seq::empty(), 0),
{
    let mut lines: Vec<String> = Vec::new();
    let mut i: usize = 0;
    assert(texts_of(lines@) =~= Seq::<Seq<char>>::empty());
    while i < code.len()
        invariant
            i <= code@.len(),
            code_lines_from(code@, Seq::empty(), 0) == code_lines_from(
                code@,
                texts_of(lines@),
                i as int,
            ),
        decreases code@.len() - i,
    {
        let padding = match &code[i] {
            Instruction::Noope => true,
            _ => false,
        };
        if !padding {
            let mut line = String::new();
            push_index(&mut line, i);
            line.append(": ");
            let shown = code[i].to_string();
            line.append(shown.as_str());
            proof {
                lemma_texts_push(lines@, line);
                assert(line@ =~= place_text(i as int) + ": "@ + instruction_text(&code@[i as int]));
            }
            lines.push(line);
        }
        i += 1;
    }
    lines
}

/// The name under which the class-file format knows an attribute of which only the kind
/// is kept.
pub open spec fn opaque_text(attribute: &Attribute) -> Seq<char> {
    match attribute {
        Attribute::InnerClasses => "InnerClasses"@,
        Attribute::EnclosingMethod => "EnclosingMethod"@,
        Attribute::SourceDebugExtension => "SourceDebugExtension"@,
        Attribute::BootstrapMethods => "BootstrapMethods"@,
        Attribute::ConstantValue => "ConstantValue"@,
        Attribute::Exceptions => "Exceptions"@,
        Attribute::RuntimeVisibleParameterAnnotations => "RuntimeVisibleParameterAnnotations"@,
        Attribute::RuntimeInvisibleParameterAnnotations => "RuntimeInvisibleParameterAnnotations"@,
        Attribute::AnnotationDefault => "AnnotationDefault"@,
        Attribute::MethodParameters => "MethodParameters"@,
        Attribute::Synthetic => "Synthetic"@,
        Attribute::Deprecated => "Deprecated"@,
        Attribute::Signature => "Signature"@,
        Attribute::RuntimeVisibleAnnotations => "RuntimeVisibleAnnotations"@,
        Attribute::RuntimeInvisibleAnnotations => "RuntimeInvisibleAnnotations"@,
        Attribute::LocalVariableTable => "LocalVariableTable"@,
        Attribute::LocalVariableTypeTable => "LocalVariableTypeTable"@,
        Attribute::RuntimeVisibleTypeAnnotations => "RuntimeVisibleTypeAnnotations"@,
        _ => "RuntimeInvisibleTypeAnnotations"@,
    }
}

/// Computes `opaque_text`.
fn show_opaque(attribute: &Attribute) -> (r: String)
    ensures
        r@ == opaque_text(attribute),
{
    match attribute {
        Attribute::InnerClasses => plain("InnerClasses"),
        Attribute::EnclosingMethod => plain("EnclosingMethod"),
        Attribute::SourceDebugExtension => plain("SourceDebugExtension"),
        Attribute::BootstrapMethods => plain("BootstrapMethods"),
        Attribute::ConstantValue => plain("ConstantValue"),
        Attribute::Exceptions => plain("Exceptions"),
        Attribute::RuntimeVisibleParameterAnnotations => plain(
            "RuntimeVisibleParameterAnnotations",
        ),
        Attribute::RuntimeInvisibleParameterAnnotations => plain(
            "RuntimeInvisibleParameterAnnotations",
        ),
        Attribute::AnnotationDefault => plain("AnnotationDefault"),
        Attribute::MethodParameters => plain("MethodParameters"),
        Attribute::Synthetic => plain("Synthetic"),
        Attribute::Deprecated => plain("Deprecated"),
        Attribute::Signature => plain("Signature"),
        Attribute::RuntimeVisibleAnnotations => plain("RuntimeVisibleAnnotations"),
        Attribute::RuntimeInvisibleAnnotations => plain("RuntimeInvisibleAnnotations"),
        Attribute::LocalVariableTable => plain("LocalVariableTable"),
        Attribute::LocalVariableTypeTable => plain("LocalVariableTypeTable"),
        Attribute::RuntimeVisibleTypeAnnotations => plain("RuntimeVisibleTypeAnnotations"),
        _ => plain("RuntimeInvisibleTypeAnnotations"),
    }
}

/// The text that shows an attribute.
pub open spec fn attribute_text(attribute: &Attribute) -> Seq<char>
    decreases attribute, 0nat,
{
    match attribute {
        Attribute::SourceFile(a) => source_file_text(*a),
        Attribute::Code(a) => code_text(a),
        Attribute::LineNumberTable(a) => line_number_table_text(a.line_number_tables@),
        Attribute::StackMapTable(a) => stack_map_table_text(a),
        _ => opaque_text(attribute),
    }
}

/// The texts of attributes.
pub open spec fn attribute_texts(attributes: Seq<Attribute>) -> Seq<Seq<char>>
    decreases attributes, 1nat,
{
    Seq::new(
        attributes.len(),
        |i: int|
            if 0 <= i < attributes.len() {
                attribute_text(&attributes[i])
            } else {
                Seq::empty()
            },
    )
}

/// The text that shows a code attribute: its limits, a line for each instruction, and
/// the attributes nested in it.
pub open spec fn code_text(code: &Code) -> Seq<char>
    decreases code, 2nat,
{
    "Code:\n  stack:"@ + number_text(short_index(code.max_stack)) + ", locals="@ + number_text(
        short_index(code.max_locals),
    ) + ", args_size=?\n    "@ + joined(code_lines_from(code.code@, Seq::empty(), 0), "\n    "@)
        + "\n  "@ + joined(attribute_texts(code.attribute_info@), "\n  "@)
}

/// The texts of `attributes`.
pub fn show_attributes(attributes: &Vec<Attribute>) -> (r: Vec<String>)
    ensures
        texts_of(r@) == attribute_texts(attributes@),
    decreases attributes, 1nat,
{
    let mut lines: Vec<String> = Vec::new();
    let mut i: usize = 0;
    assert(texts_of(lines@) =~= Seq::<Seq<char>>::empty());
    while i < attributes.len()
        invariant
            i <= attributes@.len(),
            texts_of(lines@) == Seq::new(
                i as nat,
                |j: int|
                    if 0 <= j < attributes@.len() {
                        attribute_text(&attributes@[j])
                    } else {
                        Seq::empty()
                    },
            ),
        decreases attributes@.len() - i,
    {
        let line = attributes[i].to_string();
        proof {
            lemma_texts_push(lines@, line);
        }
        lines.push(line);
        i += 1;
        assert(texts_of(lines@) =~= Seq::new(
            i as nat,
            |j: int|
                if 0 <= j < attributes@.len() {
                    attribute_text(&attributes@[j])
                } else {
                    Seq::empty()
                },
        ));
    }
    assert(texts_of(lines@) =~= attribute_texts(attributes@));
    lines
}

impl Attribute {
    /// The text that shows the attribute.
    pub fn to_string(&self) -> (r: String)
        ensures
            r@ == attribute_text(self),
        decreases self, 0nat,
    {
        match self {
            Attribute::SourceFile(a) => a.to_string(),
            Attribute::Code(a) => a.to_string(),
            Attribute::LineNumberTable(a) => a.to_string(),
            Attribute::StackMapTable(a) => a.to_string(),
            _ => show_opaque(self),
        }
    }
}

impl Code {
    /// The text that shows the code attribute.
    pub fn to_string(&self) -> (r: String)
        ensures
            r@ == code_text(self),
        decreases self, 2nat,
    {
        let mut text = with_index("Code:\n  stack:", short_as_index(self.max_stack));
        text.append(", locals=");
        push_index(&mut text, short_as_index(self.max_locals));
        text.append(", args_size=?\n    ");
        let instructions = join(&show_code(&self.code), "\n    ");
        text.append(instructions.as_str());
        text.append("\n  ");
        let attributes = join(&show_attributes(&self.attribute_info), "\n  ");
        text.append(attributes.as_str());
        text
    }
}

/// The name of an access flag of a field.
pub open spec fn field_flag_text(flag: FieldAccessFlag) -> Seq<char> {
    match flag {
        FieldAccessFlag::Unknown => ""@,
        FieldAccessFlag::AccPublic => "ACC_PUBLIC"@,
        FieldAccessFlag::AccPrivate => "ACC_PRIVATE"@,
        FieldAccessFlag::AccProtected => "ACC_PROTECTED"@,
        FieldAccessFlag::AccStatic => "ACC_STATIC"@,
        FieldAccessFlag::AccFinal => "ACC_FINAL"@,
        FieldAccessFlag::AccVolatitle => "ACC_VOLATITLE"@,
        FieldAccessFlag::AccTransient => "ACC_TRANSIENT"@,
        FieldAccessFlag::AccSynthetic => "ACC_SYNTHETIC"@,
        FieldAccessFlag::AccEnum => "ACC_ENUM"@,
    }
}

impl FieldAccessFlag {
    /// The name of the flag.
    pub fn to_string(&self) -> (r: String)
        ensures
            r@ == field_flag_text(*self),
    {
        match self {
            FieldAccessFlag::Unknown => plain(""),
            FieldAccessFlag::AccPublic => plain("ACC_PUBLIC"),
            FieldAccessFlag::AccPrivate => plain("ACC_PRIVATE"),
            FieldAccessFlag::AccProtected => plain("ACC_PROTECTED"),
            FieldAccessFlag::AccStatic => plain("ACC_STATIC"),
            FieldAccessFlag::AccFinal => plain("ACC_FINAL"),
            FieldAccessFlag::AccVolatitle => plain("ACC_VOLATITLE"),
            FieldAccessFlag::AccTransient => plain("ACC_TRANSIENT"),
            FieldAccessFlag::AccSynthetic => plain("ACC_SYNTHETIC"),
            FieldAccessFlag::AccEnum => plain("ACC_ENUM"),
        }
    }
}

/// The names of the access flags of a field, joined by commas.
pub open spec fn field_flags_text(flags: Seq<FieldAccessFlag>) -> Seq<char> {
    joined(Seq::new(flags.len(), |i: int| field_flag_text(flags[i])), ", "@)
}

impl FieldAccessFlags {
    /// The names of the flags, joined by commas.
    pub fn to_string(&self) -> (r: String)
        ensures
            r@ == field_flags_text(self.0@),
    {
        let mut lines: Vec<String> = Vec::new();
        let mut i: usize = 0;
        while i < self.0.len()
            invariant
                i <= self.0@.len(),
                texts_of(lines@) == Seq::new(i as nat, |j: int| field_flag_text(self.0@[j])),
            decreases self.0@.len() - i,
        {
            let line = self.0[i].to_string();
            proof {
                lemma_texts_push(lines@, line);
            }
            lines.push(line);
            i += 1;
            assert(texts_of(lines@) =~= Seq::new(i as nat, |j: int| field_flag_text(self.0@[j])));
        }
        join(&lines, ", ")
    }
}

/// The name of an access flag of a method.
pub open spec fn method_flag_text(flag: MethodAccessFlag) -> Seq<char> {
    match flag {
        MethodAccessFlag::AccPublic => "ACC_PUBLIC"@,
        MethodAccessFlag::AccPrivate => "ACC_PRIVATE"@,
        MethodAccessFlag::AccProtected => "ACC_PROTECTED"@,
        MethodAccessFlag::AccStatic => "ACC_STATIC"@,
        MethodAccessFlag::AccFinal => "ACC_FINAL"@,
        MethodAccessFlag::AccSynchronized => "ACC_SYNCHRONIZED"@,
        MethodAccessFlag::AccBridge => "ACC_BRIDGE"@,
        MethodAccessFlag::AccVarargs => "ACC_VARARGS"@,
        MethodAccessFlag::AccNative => "ACC_NATIVE"@,
        MethodAccessFlag::AccAbstract => "ACC_ABSTRACT"@,
        MethodAccessFlag::AccStrict => "ACC_STRICT"@,
        MethodAccessFlag::AccSynthetic => "ACC_SYNTHETIC"@,
    }
}

impl MethodAccessFlag {
    /// The name of the flag.
    pub fn to_string(&self) -> (r: String)
        ensures
            r@ == method_flag_text(*self),
    {
        match self {
            MethodAccessFlag::AccPublic => plain("ACC_PUBLIC"),
            MethodAccessFlag::AccPrivate => plain("ACC_PRIVATE"),
            MethodAccessFlag::AccProtected => plain("ACC_PROTECTED"),
            MethodAccessFlag::AccStatic => plain("ACC_STATIC"),
            MethodAccessFlag::AccFinal => plain("ACC_FINAL"),
            MethodAccessFlag::AccSynchronized => plain("ACC_SYNCHRONIZED"),
            MethodAccessFlag::AccBridge => plain("ACC_BRIDGE"),
            MethodAccessFlag::AccVarargs => plain("ACC_VARARGS"),
            MethodAccessFlag::AccNative => plain("ACC_NATIVE"),
            MethodAccessFlag::AccAbstract => plain("ACC_ABSTRACT"),
            MethodAccessFlag::AccStrict => plain("ACC_STRICT"),
            MethodAccessFlag::AccSynthetic => plain("ACC_SYNTHETIC"),
        }
    }
}

/// The names of the access flags of a method, joined by commas.
pub open spec fn method_flags_text(flags: Seq<MethodAccessFlag>) -> Seq<char> {
    joined(Seq::new(flags.len(), |i: int| method_flag_text(flags[i])), ", "@)
}

impl MethodAccessFlags {
    /// The names of the flags, joined by commas.
    pub fn to_string(&self) -> (r: String)
        ensures
            r@ == method_flags_text(self.0@),
    {
        let mut lines: Vec<String> = Vec::new();
        let mut i: usize = 0;
        while i < self.0.len()
            invariant
                i <= self.0@.len(),
                texts_of(lines@) == Seq::new(i as nat, |j: int| method_flag_text(self.0@[j])),
            decreases self.0@.len() - i,
        {
            let line = self.0[i].to_string();
            proof {
                lemma_texts_push(lines@, line);
            }
            lines.push(line);
            i += 1;
            assert(texts_of(lines@) =~= Seq::new(i as nat, |j: int| method_flag_text(self.0@[j])));
        }
        join(&lines, ", ")
    }
}

/// The name of an access flag of a class.
pub open spec fn class_flag_text(flag: AccessFlag) -> Seq<char> {
    match flag {
        AccessFlag::AccPublic => "ACC_PUBLIC"@,
        AccessFlag::AccFinal => "ACC_FINAL"@,
        AccessFlag::AccSuper => "ACC_SUPER"@,
        AccessFlag::AccInterface => "ACC_INTERFACE"@,
        AccessFlag::AccAbstract => "ACC_ABSTRACT"@,
        AccessFlag::AccSynthetic => "ACC_SYNTHETIC"@,
        AccessFlag::AccAnnotation => "ACC_ANNOTATION"@,
        AccessFlag::AccEnum => "ACC_ENUM"@,
    }
}

impl AccessFlag {
    /// The name of the flag.
    pub fn to_string(&self) -> (r: String)
        ensures
            r@ == class_flag_text(*self),
    {
        match self {
            AccessFlag::AccPublic => plain("ACC_PUBLIC"),
            AccessFlag::AccFinal => plain("ACC_FINAL"),
            AccessFlag::AccSuper => plain("ACC_SUPER"),
            AccessFlag::AccInterface => plain("ACC_INTERFACE"),
            AccessFlag::AccAbstract => plain("ACC_ABSTRACT"),
            AccessFlag::AccSynthetic => plain("ACC_SYNTHETIC"),
            AccessFlag::AccAnnotation => plain("ACC_ANNOTATION"),
            AccessFlag::AccEnum => plain("ACC_ENUM"),
        }
    }
}

/// The names of the access flags of a class, joined by commas, behind `flags: `.
pub open spec fn class_flags_text(flags: Seq<AccessFlag>) -> Seq<char> {
    "flags: "@ + joined(Seq::new(flags.len(), |i: int| class_flag_text(flags[i])), ", "@)
}

impl AccessFlags {
    /// The names of the flags, joined by commas, behind `flags: `.
    pub fn to_string(&self) -> (r: String)
        ensures
            r@ == class_flags_text(self.0@),
    {
        let mut lines: Vec<String> = Vec::new();
        let mut i: usize = 0;
        while i < self.0.len()
            invariant
                i <= self.0@.len(),
                texts_of(lines@) == Seq::new(i as nat, |j: int| class_flag_text(self.0@[j])),
            decreases self.0@.len() - i,
        {
            let line = self.0[i].to_string();
            proof {
                lemma_texts_push(lines@, line);
            }
            lines.push(line);
            i += 1;
            assert(texts_of(lines@) =~= Seq::new(i as nat, |j: int| class_flag_text(self.0@[j])));
        }
        let mut text = String::from_str("flags: ");
        let body = join(&lines, ", ");
        text.append(body.as_str());
        text
    }
}

/// The text that shows a field: its name, its descriptor, its flags and its attributes.
pub open spec fn field_text(field: &Field) -> Seq<char> {
    "  name: #"@ + number_text(field.name_index) + "\n  descriptor: #"@ + number_text(
        field.descriptor_index,
    ) + "\n  flags: "@ + field_flags_text(field.access_flags.0@) + "\n  attribute:\n    "@
        + joined(attribute_texts(field.attribute_info@), "\n  "@)
}

impl Field {
    /// The text that shows the field.
    pub fn to_string(&self) -> (r: String)
        ensures
            r@ == field_text(self),
    {
        let mut text = with_index("  name: #", self.name_index);
        text.append("\n  descriptor: #");
        push_index(&mut text, self.descriptor_index);
        text.append("\n  flags: ");
        let flags = self.access_flags.to_string();
        text.append(flags.as_str());
        text.append("\n  attribute:\n    ");
        let attributes = join(&show_attributes(&self.attribute_info), "\n  ");
        text.append(attributes.as_str());
        text
    }
}

/// The text that shows a method: its name, its descriptor, its flags and its attributes.
pub open spec fn method_text(method: &Method) -> Seq<char> {
    "  name: #"@ + number_text(method.name_index) + "\n  descriptor: #"@ + number_text(
        method.descriptor_index,
    ) + "\n  flags: "@ + method_flags_text(method.access_flags.0@) + "\n  "@ + joined(
        attribute_texts(method.attribute_info@),
        "\n\n"@,
    )
}

impl Method {
    /// The text that shows the method.
    pub fn to_string(&self) -> (r: String)
        ensures
            r@ == method_text(self),
    {
        let mut text = with_index("  name: #", self.name_index);
        text.append("\n  descriptor: #");
        push_index(&mut text, self.descriptor_index);
        text.append("\n  flags: ");
        let flags = self.access_flags.to_string();
        text.append(flags.as_str());
        text.append("\n  ");
        let attributes = join(&show_attributes(&self.attribute_info), "\n\n");
        text.append(attributes.as_str());
        text
    }
}

/// The text that shows a class: its version, its flags, its constant pool, its fields,
/// its methods and its attributes.
pub open spec fn class_text(class: &ClassFile, texts: Seq<Seq<char>>) -> Seq<char> {
    "minor version: "@ + number_text(short_index(class.minor_version)) + "\nmajor version: "@
        + number_text(short_index(class.major_version)) + "\nflags: "@ + class_flags_text(
        class.access_flags.0@,
    ) + "\nConstant pool:\n"@ + listing(class.cp_info@, texts) + "\n\nFields:\n"@ + joined(
        Seq::new(class.fields@.len(), |i: int| field_text(&class.fields@[i])),
        "\n"@,
    ) + "\nMethods:\n"@ + joined(
        Seq::new(class.methods@.len(), |i: int| method_text(&class.methods@[i])),
        "\n\n"@,
    ) + "\n\nAttributes:\n  "@ + joined(attribute_texts(class.attributes@), "\n  "@)
}

impl ClassFile {
    /// The text that shows the class.
    pub fn to_string(&self, string_pool: &StringPool) -> (r: String)
        ensures
            r@ == class_text(self, string_pool@),
    {
        let mut fields: Vec<String> = Vec::new();
        let mut i: usize = 0;
        while i < self.fields.len()
            invariant
                i <= self.fields@.len(),
                texts_of(fields@) == Seq::new(i as nat, |j: int| field_text(&self.fields@[j])),
            decreases self.fields@.len() - i,
        {
            let line = self.fields[i].to_string();
            proof {
                lemma_texts_push(fields@, line);
            }
            fields.push(line);
            i += 1;
            assert(texts_of(fields@) =~= Seq::new(i as nat, |j: int| field_text(&self.fields@[j])));
        }
        let mut methods: Vec<String> = Vec::new();
        let mut i: usize = 0;
        while i < self.methods.len()
            invariant
                i <= self.methods@.len(),
                texts_of(methods@) == Seq::new(i as nat, |j: int| method_text(&self.methods@[j])),
            decreases self.methods@.len() - i,
        {
            let line = self.methods[i].to_string();
            proof {
                lemma_texts_push(methods@, line);
            }
            methods.push(line);
            i += 1;
            assert(texts_of(methods@) =~= Seq::new(
                i as nat,
                |j: int| method_text(&self.methods@[j]),
            ));
        }
        let mut text = with_index("minor version: ", short_as_index(self.minor_version));
        text.append("\nmajor version: ");
        push_index(&mut text, short_as_index(self.major_version));
        text.append("\nflags: ");
        let flags = self.access_flags.to_string();
        text.append(flags.as_str());
        text.append("\nConstant pool:\n");
        let pool = self.cp_info.to_string(string_pool);
        text.append(pool.as_str());
        text.append("\n\nFields:\n");
        let fields = join(&fields, "\n");
        text.append(fields.as_str());
        text.append("\nMethods:\n");
        let methods = join(&methods, "\n\n");
        text.append(methods.as_str());
        text.append("\n\nAttributes:\n  ");
        let attributes = join(&show_attributes(&self.attributes), "\n  ");
        text.append(attributes.as_str());
        text
    }
}

/// The line that shows one field of an object: the two parts of its key and its value,
/// of which the second slot is shown unless it is `Null`.
pub open spec fn field_value_text(key: Key, value: (Item, Item)) -> Seq<char> {
    let head = number_text(key.0) + "."@ + number_text(key.1) + ": "@ + item_text(value.0);
    if value.1 is Null {
        head
    } else {
        head + " "@ + item_text(value.1)
    }
}

/// The text that shows an object: its class, and a line for each field in the order in
/// which its field map lists them.
pub open spec fn object_text(object: &Objectref) -> Seq<char> {
    "object_ref:\nclass "@ + number_text(object.class_name_id) + ":\n"@ + joined(
        Seq::new(
            object.field_map.keys@.len(),
            |i: int| field_value_text(object.field_map.keys@[i], object.field_map.values@[i]),
        ),
        "\n"@,
    )
}

impl Objectref {
    /// The text that shows the object.
    pub fn to_string(&self) -> (r: String)
        requires
            self.field_map.wf(),
        ensures
            r@ == object_text(self),
    {
        let mut lines: Vec<String> = Vec::new();
        let mut i: usize = 0;
        while i < self.field_map.keys.len()
            invariant
                self.field_map.wf(),
                i <= self.field_map.keys@.len(),
                texts_of(lines@) == Seq::new(
                    i as nat,
                    |j: int|
                        field_value_text(self.field_map.keys@[j], self.field_map.values@[j]),
                ),
            decreases self.field_map.keys@.len() - i,
        {
            let key = self.field_map.keys[i];
            let value = self.field_map.values[i];
            let mut line = String::new();
            push_index(&mut line, key.0);
            line.append(".");
            push_index(&mut line, key.1);
            line.append(": ");
            let first = value.0.to_string();
            line.append(first.as_str());
            match value.1 {
                Item::Null => {},
                other => {
                    line.append(" ");
                    let second = other.to_string();
                    line.append(second.as_str());
                },
            }
            proof {
                assert(line@ =~= field_value_text(key, value));
                lemma_texts_push(lines@, line);
            }
            lines.push(line);
            i += 1;
            assert(texts_of(lines@) =~= Seq::new(
                i as nat,
                |j: int| field_value_text(self.field_map.keys@[j], self.field_map.values@[j]),
            ));
        }
        let mut text = with_index("object_ref:\nclass ", self.class_name_id);
        text.append(":\n");
        let body = join(&lines, "\n");
        text.append(body.as_str());
        text
    }
}

impl Array {
    /// The text that shows an array: nothing.
    pub fn to_string(&self) -> (r: String)
        ensures
            r@ == Seq::<char>::empty(),
    {
        String::new()
    }
}

} // verus!
