//! Attributes: the tagged union, the attributes that are parsed in full, and their parsers.

use vstd::prelude::*;
use crate::attribute::code::{Code, ExceptionTableItem};
use crate::attribute::instruction::{code_view, decode_at, padding, Decoded};
use crate::constant::{item_at, missing_slots, ConstPoolItem, ConstantPool};
use crate::error::UnsupportedError;
use crate::string_pool::StringPool;


use crate::error::{DecodeError, Error};

use crate::utils::{available, read_u1, read_u2, read_u4, u1_at, u2_at, u4_at};

verus! {

/// Entries read so far, and the index of the next byte.
pub struct Progress<T> {
    pub items: Seq<T>,
    pub index: usize,
}

/// The declared length of an attribute is the length of what was read of its body.
pub open spec fn length_matches(body: usize, length: usize, end: usize) -> bool {
    end == body + length
}

/// Fails unless the body that starts at `body` and was declared `length` bytes long ends
/// at `end`.
pub fn check_length(body: usize, length: usize, end: usize) -> (r: Result<(), Error>)
    ensures
        r == if length_matches(body, length, end) {
            Ok::<(), Error>(())
        } else {
            Err::<(), Error>(Error::DecodeError(DecodeError::MalformedAttributeLength))
        },
{
    if end >= body && end - body == length {
        Ok(())
    } else {
        Err(Error::DecodeError(DecodeError::MalformedAttributeLength))
    }
}

#[derive(Clone, Copy, Debug, PartialEq, Eq, Structural)]
pub struct SourceFile {
    pub attribute_name_index: u16,
    pub attribute_length: u32,
    pub sourcefile_index: u16,
}

/// The source-file attribute whose length field starts at `index`.
pub open spec fn source_file_at(bytes: Seq<u8>, index: usize, attribute_name_index: u16) -> Result<
    (SourceFile, usize),
    Error,
> {
    match u4_at(bytes, index) {
        Err(e) => Err(e),
        Ok((length, body)) => match u2_at(bytes, body) {
            Err(e) => Err(e),
            Ok((sourcefile_index, end)) => if length_matches(body, length, end) {
                Ok(
                    (
                        SourceFile {
                            attribute_name_index,
                            attribute_length: length as u32,
                            sourcefile_index: sourcefile_index as u16,
                        },
                        end,
                    ),
                )
            } else {
                Err(Error::DecodeError(DecodeError::MalformedAttributeLength))
            },
        },
    }
}

impl SourceFile {
    /// Parses the attribute whose length field starts at `index`.
    pub fn new(inputs: &[u8], index: usize, attribute_name_index: u16) -> (r: Result<
        (SourceFile, usize),
        Error,
    >)
        ensures
            r == source_file_at(inputs@, index, attribute_name_index),
    {
        let (length, body) = read_u4(inputs, index)?;
        let (sourcefile_index, end) = read_u2(inputs, body)?;
        check_length(body, length, end)?;
        Ok(
            (
                SourceFile {
                    attribute_name_index,
                    attribute_length: length as u32,
                    sourcefile_index: sourcefile_index as u16,
                },
                end,
            ),
        )
    }
}

#[derive(Clone, Copy, Debug, PartialEq, Eq, Structural)]
pub struct LineNumberTableItem {
    pub start_pc: u16,
    pub line_number: u16,
}

#[derive(Debug)]
pub struct LineNumberTable {
    pub attribute_name_index: u16,
    pub attribute_length: u32,
    pub line_number_table_length: usize,
    pub line_number_tables: Vec<LineNumberTableItem>,
}

/// A line-number table with its entries as a sequence.
pub struct LineNumberTableView {
    pub attribute_name_index: u16,
    pub attribute_length: u32,
    pub line_number_table_length: usize,
    pub line_number_tables: Seq<LineNumberTableItem>,
}

impl View for LineNumberTable {
    type V = LineNumberTableView;

    open spec fn view(&self) -> LineNumberTableView {
        LineNumberTableView {
            attribute_name_index: self.attribute_name_index,
            attribute_length: self.attribute_length,
            line_number_table_length: self.line_number_table_length,
            line_number_tables: self.line_number_tables@,
        }
    }
}

/// The 16-bit number at `index`, where two bytes stand there.
pub open spec fn short_at(bytes: Seq<u8>, index: int) -> u16 {
    (bytes[index] * 256 + bytes[index + 1]) as u16
}

/// The line-number entry of four bytes at `index`.
pub open spec fn line_number_at(bytes: Seq<u8>, index: int) -> LineNumberTableItem {
    LineNumberTableItem { start_pc: short_at(bytes, index), line_number: short_at(bytes, index + 2) }
}

/// The line-number table whose length field starts at `index`.
pub open spec fn line_number_table_at(
    bytes: Seq<u8>,
    index: usize,
    attribute_name_index: u16,
) -> Result<(LineNumberTableView, usize), Error> {
    match u4_at(bytes, index) {
        Err(e) => Err(e),
        Ok((length, body)) => match u2_at(bytes, body) {
            Err(e) => Err(e),
            Ok((count, first)) => if !available(bytes, first as int, 4 * count) {
                Err(Error::DecodeError(DecodeError::FileTooShort))
            } else if !length_matches(body, length, (first + 4 * count) as usize) {
                Err(Error::DecodeError(DecodeError::MalformedAttributeLength))
            } else {
                Ok(
                    (
                        LineNumberTableView {
                            attribute_name_index,
                            attribute_length: length as u32,
                            line_number_table_length: count,
                            line_number_tables: Seq::new(
                                count as nat,
                                |i: int| line_number_at(bytes, first + 4 * i),
                            ),
                        },
                        (first + 4 * count) as usize,
                    ),
                )
            },
        },
    }
}

/// The 16-bit number that two bytes spell is what reading them gives.
pub proof fn lemma_short_at(bytes: Seq<u8>, index: usize)
    requires
        available(bytes, index as int, 2),
    ensures
        u2_at(bytes, index) == Ok::<(usize, usize), Error>(
            (short_at(bytes, index as int) as usize, (index + 2) as usize),
        ),
        u2_at(bytes, index)->Ok_0.0 as u16 == short_at(bytes, index as int),
{
    crate::utils::lemma_be_value_bound(bytes.subrange(index as int, index + 2));
}

impl LineNumberTable {
    /// Parses the attribute whose length field starts at `index`.
    pub fn new(inputs: &[u8], index: usize, attribute_name_index: u16) -> (r: Result<
        (LineNumberTable, usize),
        Error,
    >)
        ensures
            match r {
                Ok((table, next)) => line_number_table_at(inputs@, index, attribute_name_index)
                    == Ok::<(LineNumberTableView, usize), Error>((table@, next)),
                Err(e) => line_number_table_at(inputs@, index, attribute_name_index) == Err::<
                    (LineNumberTableView, usize),
                    Error,
                >(e),
            },
    {
        let (length, body) = read_u4(inputs, index)?;
        let (count, first) = read_u2(inputs, body)?;
        let total: usize = inputs.len();
        if total - first < 4 * count {
            return Err(Error::DecodeError(DecodeError::FileTooShort));
        }
        let end: usize = first + 4 * count;
        check_length(body, length, end)?;
        let mut items: Vec<LineNumberTableItem> = Vec::with_capacity(count);
        let mut i: usize = 0;
        while i < count
            invariant
                i <= count,
                total == inputs@.len(),
                first + 4 * count <= total,
                items@.len() == i,
                forall|j: int| 0 <= j < i ==> items@[j] == line_number_at(inputs@, first + 4 * j),
            decreases count - i,
        {
            let at: usize = first + 4 * i;
            proof {
                lemma_short_at(inputs@, at);
                lemma_short_at(inputs@, (at + 2) as usize);
            }
            let (start_pc, middle) = read_u2(inputs, at)?;
            let (line_number, _) = read_u2(inputs, middle)?;
            items.push(
                LineNumberTableItem { start_pc: start_pc as u16, line_number: line_number as u16 },
            );
            i += 1;
        }
        let table = LineNumberTable {
            attribute_name_index,
            attribute_length: length as u32,
            line_number_table_length: count,
            line_number_tables: items,
        };
        proof {
            let wanted = line_number_table_at(inputs@, index, attribute_name_index)->Ok_0.0;
            assert(table@.line_number_tables =~= wanted.line_number_tables);
        }
        Ok((table, end))
    }
}

#[derive(Clone, Copy, Debug, PartialEq, Eq, Structural)]
pub enum VerificationTypeInfo {
    TopVariableInfo,
    IntegerVariableInfo,
    FloatVariableInfo,
    DoubleVariableInfo,
    LongVariableInfo,
    NullVariableInfo,
    UninitializedThisVariableInfo,
    ObjectVariableInfo(usize),
    UninitializedVariableInfo(usize),
}

/// The verification type that starts with its tag byte at `index`.
pub open spec fn verification_type_at(bytes: Seq<u8>, index: usize) -> Result<
    (VerificationTypeInfo, usize),
    Error,
> {
    match u1_at(bytes, index) {
        Err(e) => Err(e),
        Ok((tag, next)) => if tag == 0 {
            Ok((VerificationTypeInfo::TopVariableInfo, next))
        } else if tag == 1 {
            Ok((VerificationTypeInfo::IntegerVariableInfo, next))
        } else if tag == 2 {
            Ok((VerificationTypeInfo::FloatVariableInfo, next))
        } else if tag == 3 {
            Ok((VerificationTypeInfo::DoubleVariableInfo, next))
        } else if tag == 4 {
            Ok((VerificationTypeInfo::LongVariableInfo, next))
        } else if tag == 5 {
            Ok((VerificationTypeInfo::NullVariableInfo, next))
        } else if tag == 6 {
            Ok((VerificationTypeInfo::UninitializedThisVariableInfo, next))
        } else if tag == 7 {
            match u2_at(bytes, next) {
                Err(e) => Err(e),
                Ok((pool_index, end)) => Ok(
                    (VerificationTypeInfo::ObjectVariableInfo(pool_index), end),
                ),
            }
        } else if tag == 8 {
            match u2_at(bytes, next) {
                Err(e) => Err(e),
                Ok((offset, end)) => Ok(
                    (VerificationTypeInfo::UninitializedVariableInfo(offset), end),
                ),
            }
        } else {
            Err(Error::DecodeError(DecodeError::UnknownVerificationType(tag)))
        },
    }
}

/// Where reading verification types ends that starts from `progress` and goes on until
/// `length` of them are read.
pub open spec fn verification_types_from(
    bytes: Seq<u8>,
    progress: Progress<VerificationTypeInfo>,
    length: usize,
) -> Result<Progress<VerificationTypeInfo>, Error>
    decreases length - progress.items.len(),
{
    if progress.items.len() >= length {
        Ok(progress)
    } else {
        match verification_type_at(bytes, progress.index) {
            Err(e) => Err(e),
            Ok((item, next)) => verification_types_from(
                bytes,
                Progress { items: progress.items.push(item), index: next },
                length,
            ),
        }
    }
}

/// `length` verification types in a row at `index`.
pub open spec fn verification_types_at(bytes: Seq<u8>, index: usize, length: usize) -> Result<
    Progress<VerificationTypeInfo>,
    Error,
> {
    verification_types_from(bytes, Progress { items: Seq::empty(), index }, length)
}

/// Reads the verification type that starts with its tag byte at `index`.
fn read_verification_type(inputs: &[u8], index: usize) -> (r: Result<
    (VerificationTypeInfo, usize),
    Error,
>)
    ensures
        r == verification_type_at(inputs@, index),
{
    let (tag, next) = read_u1(inputs, index)?;
    if tag == 0 {
        Ok((VerificationTypeInfo::TopVariableInfo, next))
    } else if tag == 1 {
        Ok((VerificationTypeInfo::IntegerVariableInfo, next))
    } else if tag == 2 {
        Ok((VerificationTypeInfo::FloatVariableInfo, next))
    } else if tag == 3 {
        Ok((VerificationTypeInfo::DoubleVariableInfo, next))
    } else if tag == 4 {
        Ok((VerificationTypeInfo::LongVariableInfo, next))
    } else if tag == 5 {
        Ok((VerificationTypeInfo::NullVariableInfo, next))
    } else if tag == 6 {
        Ok((VerificationTypeInfo::UninitializedThisVariableInfo, next))
    } else if tag == 7 {
        let (pool_index, end) = read_u2(inputs, next)?;
        Ok((VerificationTypeInfo::ObjectVariableInfo(pool_index), end))
    } else if tag == 8 {
        let (offset, end) = read_u2(inputs, next)?;
        Ok((VerificationTypeInfo::UninitializedVariableInfo(offset), end))
    } else {
        Err(Error::DecodeError(DecodeError::UnknownVerificationType(tag)))
    }
}

/// Reads `length` verification types in a row, the first at `start`. Hands out
/// the types and the index behind the last.
pub fn extract_verification_type_info(inputs: &[u8], start: usize, length: usize) -> (r:
    Result<(Vec<VerificationTypeInfo>, usize), Error>)
    ensures
        match r {
            Ok((types, next)) => verification_types_at(inputs@, start, length) == Ok::<
                Progress<VerificationTypeInfo>,
                Error,
            >(Progress { items: types@, index: next }),
            Err(e) => verification_types_at(inputs@, start, length) == Err::<
                Progress<VerificationTypeInfo>,
                Error,
            >(e),
        },
{
    let mut index = start;
    let mut result: Vec<VerificationTypeInfo> = Vec::new();
    assert(result@ =~= Seq::<VerificationTypeInfo>::empty());
    while result.len() < length
        invariant
            verification_types_at(inputs@, start, length) == verification_types_from(
                inputs@,
                Progress { items: result@, index },
                length,
            ),
        decreases length - result@.len(),
    {
        let (item, next) = read_verification_type(inputs, index)?;
        result.push(item);
        index = next;
    }
    Ok((result, index))
}

#[derive(Clone, Copy, Debug, PartialEq, Eq, Structural)]
pub struct SameFrame {
    pub frame_type: usize,
}

#[derive(Clone, Copy, Debug, PartialEq, Eq, Structural)]
pub struct ChopFrame {
    pub frame_type: usize,
    pub offset_delta: usize,
}

#[derive(Debug)]
pub struct AppendFrame {
    pub frame_type: usize,
    pub offset_delta: usize,
    pub locals: Vec<VerificationTypeInfo>,
}

#[derive(Debug)]
pub struct FullFrame {
    pub frame_type: usize,
    pub offset_delta: usize,
    pub number_of_locals: usize,
    pub locals: Vec<VerificationTypeInfo>,
    pub number_of_stack_items: usize,
    pub stack: Vec<VerificationTypeInfo>,
}

/// One frame of a stack-map table. Of the frames that carry one stack item only the
/// kind is kept.
#[derive(Debug)]
pub enum StackMapFrame {
    SameFrame(SameFrame),
    SameLocals1StackItemFrame,
    SameLocals1StackItemFrameExtended,
    ChopFrame(ChopFrame),
    SameFrameExtended,
    AppendFrame(AppendFrame),
    FullFrame(FullFrame),
}

/// A stack-map frame with its lists as sequences.
pub enum StackMapFrameView {
    SameFrame(SameFrame),
    SameLocals1StackItemFrame,
    SameLocals1StackItemFrameExtended,
    ChopFrame(ChopFrame),
    SameFrameExtended,
    AppendFrame { frame_type: usize, offset_delta: usize, locals: Seq<VerificationTypeInfo> },
    FullFrame {
        frame_type: usize,
        offset_delta: usize,
        number_of_locals: usize,
        locals: Seq<VerificationTypeInfo>,
        number_of_stack_items: usize,
        stack: Seq<VerificationTypeInfo>,
    },
}

impl View for StackMapFrame {
    type V = StackMapFrameView;

    open spec fn view(&self) -> StackMapFrameView {
        match self {
            StackMapFrame::SameFrame(frame) => StackMapFrameView::SameFrame(*frame),
            StackMapFrame::SameLocals1StackItemFrame => StackMapFrameView::SameLocals1StackItemFrame,
            StackMapFrame::SameLocals1StackItemFrameExtended => {
                StackMapFrameView::SameLocals1StackItemFrameExtended
            },
            StackMapFrame::ChopFrame(frame) => StackMapFrameView::ChopFrame(*frame),
            StackMapFrame::SameFrameExtended => StackMapFrameView::SameFrameExtended,
            StackMapFrame::AppendFrame(frame) => StackMapFrameView::AppendFrame {
                frame_type: frame.frame_type,
                offset_delta: frame.offset_delta,
                locals: frame.locals@,
            },
            StackMapFrame::FullFrame(frame) => StackMapFrameView::FullFrame {
                frame_type: frame.frame_type,
                offset_delta: frame.offset_delta,
                number_of_locals: frame.number_of_locals,
                locals: frame.locals@,
                number_of_stack_items: frame.number_of_stack_items,
                stack: frame.stack@,
            },
        }
    }
}

/// The stack-map frame that starts with its type byte at `index`.
pub open spec fn stack_map_frame_at(bytes: Seq<u8>, index: usize) -> Result<
    (StackMapFrameView, usize),
    Error,
> {
    match u1_at(bytes, index) {
        Err(e) => Err(e),
        Ok((frame_type, next)) => if frame_type <= 63 {
            Ok((StackMapFrameView::SameFrame(SameFrame { frame_type }), next))
        } else if frame_type <= 127 {
            match verification_type_at(bytes, next) {
                Err(e) => Err(e),
                Ok((_, end)) => Ok((StackMapFrameView::SameLocals1StackItemFrame, end)),
            }
        } else if frame_type <= 246 {
            Err(Error::DecodeError(DecodeError::UnknownFrameType(frame_type)))
        } else {
            match u2_at(bytes, next) {
                Err(e) => Err(e),
                Ok((offset_delta, after)) => if frame_type == 247 {
                    match verification_type_at(bytes, after) {
                        Err(e) => Err(e),
                        Ok((_, end)) => Ok(
                            (StackMapFrameView::SameLocals1StackItemFrameExtended, end),
                        ),
                    }
                } else if frame_type <= 250 {
                    Ok((StackMapFrameView::ChopFrame(ChopFrame { frame_type, offset_delta }), after))
                } else if frame_type == 251 {
                    Ok((StackMapFrameView::SameFrameExtended, after))
                } else if frame_type <= 254 {
                    match verification_types_at(bytes, after, (frame_type - 251) as usize) {
                        Err(e) => Err(e),
                        Ok(locals) => Ok(
                            (
                                StackMapFrameView::AppendFrame {
                                    frame_type,
                                    offset_delta,
                                    locals: locals.items,
                                },
                                locals.index,
                            ),
                        ),
                    }
                } else {
                    match u2_at(bytes, after) {
                        Err(e) => Err(e),
                        Ok((number_of_locals, first)) => match verification_types_at(
                            bytes,
                            first,
                            number_of_locals,
                        ) {
                            Err(e) => Err(e),
                            Ok(locals) => match u2_at(bytes, locals.index) {
                                Err(e) => Err(e),
                                Ok((number_of_stack_items, second)) => match verification_types_at(
                                    bytes,
                                    second,
                                    number_of_stack_items,
                                ) {
                                    Err(e) => Err(e),
                                    Ok(stack) => Ok(
                                        (
                                            StackMapFrameView::FullFrame {
                                                frame_type,
                                                offset_delta,
                                                number_of_locals,
                                                locals: locals.items,
                                                number_of_stack_items,
                                                stack: stack.items,
                                            },
                                            stack.index,
                                        ),
                                    ),
                                },
                            },
                        },
                    }
                },
            }
        },
    }
}

impl StackMapFrame {
    /// Parses the frame that starts with its type byte at `index`.
    pub fn new(inputs: &[u8], index: usize) -> (r: Result<(StackMapFrame, usize), Error>)
        ensures
            match r {
                Ok((frame, next)) => stack_map_frame_at(inputs@, index) == Ok::<
                    (StackMapFrameView, usize),
                    Error,
                >((frame@, next)),
                Err(e) => stack_map_frame_at(inputs@, index) == Err::<
                    (StackMapFrameView, usize),
                    Error,
                >(e),
            },
    {
        let (frame_type, next) = read_u1(inputs, index)?;
        if frame_type <= 63 {
            return Ok((StackMapFrame::SameFrame(SameFrame { frame_type }), next));
        }
        if frame_type <= 127 {
            let (_, end) = read_verification_type(inputs, next)?;
            return Ok((StackMapFrame::SameLocals1StackItemFrame, end));
        }
        if frame_type <= 246 {
            return Err(Error::DecodeError(DecodeError::UnknownFrameType(frame_type)));
        }
        let (offset_delta, after) = read_u2(inputs, next)?;
        if frame_type == 247 {
            let (_, end) = read_verification_type(inputs, after)?;
            Ok((StackMapFrame::SameLocals1StackItemFrameExtended, end))
        } else if frame_type <= 250 {
            Ok((StackMapFrame::ChopFrame(ChopFrame { frame_type, offset_delta }), after))
        } else if frame_type == 251 {
            Ok((StackMapFrame::SameFrameExtended, after))
        } else if frame_type <= 254 {
            let (locals, end) = extract_verification_type_info(inputs, after, frame_type - 251)?;
            Ok((StackMapFrame::AppendFrame(AppendFrame { frame_type, offset_delta, locals }), end))
        } else {
            let (number_of_locals, first) = read_u2(inputs, after)?;
            let (locals, middle) = extract_verification_type_info(inputs, first, number_of_locals)?;
            let (number_of_stack_items, second) = read_u2(inputs, middle)?;
            let (stack, end) = extract_verification_type_info(
                inputs,
                second,
                number_of_stack_items,
            )?;
            Ok(
                (
                    StackMapFrame::FullFrame(
                        FullFrame {
                            frame_type,
                            offset_delta,
                            number_of_locals,
                            locals,
                            number_of_stack_items,
                            stack,
                        },
                    ),
                    end,
                ),
            )
        }
    }
}

#[derive(Debug)]
pub struct StackMapTable {
    pub attribute_name_index: u16,
    pub attribute_length: u32,
    pub number_of_entries: usize,
    pub stack_map_frame: Vec<StackMapFrame>,
}

/// A stack-map table with its frames as a sequence.
pub struct StackMapTableView {
    pub attribute_name_index: u16,
    pub attribute_length: u32,
    pub number_of_entries: usize,
    pub stack_map_frame: Seq<StackMapFrameView>,
}

/// The view of each frame.
pub open spec fn frames_view(frames: Seq<StackMapFrame>) -> Seq<StackMapFrameView> {
    Seq::new(frames.len(), |i: int| frames[i]@)
}

impl View for StackMapTable {
    type V = StackMapTableView;

    open spec fn view(&self) -> StackMapTableView {
        StackMapTableView {
            attribute_name_index: self.attribute_name_index,
            attribute_length: self.attribute_length,
            number_of_entries: self.number_of_entries,
            stack_map_frame: frames_view(self.stack_map_frame@),
        }
    }
}

/// Where reading frames ends that starts from `progress` and goes on until `length` of
/// them are read.
pub open spec fn frames_from(
    bytes: Seq<u8>,
    progress: Progress<StackMapFrameView>,
    length: usize,
) -> Result<Progress<StackMapFrameView>, Error>
    decreases length - progress.items.len(),
{
    if progress.items.len() >= length {
        Ok(progress)
    } else {
        match stack_map_frame_at(bytes, progress.index) {
            Err(e) => Err(e),
            Ok((item, next)) => frames_from(
                bytes,
                Progress { items: progress.items.push(item), index: next },
                length,
            ),
        }
    }
}

/// The stack-map table whose length field starts at `index`.
pub open spec fn stack_map_table_at(
    bytes: Seq<u8>,
    index: usize,
    attribute_name_index: u16,
) -> Result<
    (StackMapTableView, usize),
    Error,
> {
    match u4_at(bytes, index) {
        Err(e) => Err(e),
        Ok((length, body)) => match u2_at(bytes, body) {
            Err(e) => Err(e),
            Ok((number_of_entries, first)) => match frames_from(
                bytes,
                Progress { items: Seq::empty(), index: first },
                number_of_entries,
            ) {
                Err(e) => Err(e),
                Ok(frames) => if length_matches(body, length, frames.index) {
                    Ok(
                        (
                            StackMapTableView {
                                attribute_name_index,
                                attribute_length: length as u32,
                                number_of_entries,
                                stack_map_frame: frames.items,
                            },
                            frames.index,
                        ),
                    )
                } else {
                    Err(Error::DecodeError(DecodeError::MalformedAttributeLength))
                },
            },
        },
    }
}

impl StackMapTable {
    /// Parses the attribute whose length field starts at `index`.
    pub fn new(inputs: &[u8], index: usize, attribute_name_index: u16) -> (r: Result<
        (StackMapTable, usize),
        Error,
    >)
        ensures
            match r {
                Ok((table, next)) => stack_map_table_at(inputs@, index, attribute_name_index)
                    == Ok::<(StackMapTableView, usize), Error>((table@, next)),
                Err(e) => stack_map_table_at(inputs@, index, attribute_name_index) == Err::<
                    (StackMapTableView, usize),
                    Error,
                >(e),
            },
    {
        let (length, body) = read_u4(inputs, index)?;
        let (number_of_entries, first) = read_u2(inputs, body)?;
        let mut frames: Vec<StackMapFrame> = Vec::new();
        let mut cursor = first;
        assert(frames_view(frames@) =~= Seq::<StackMapFrameView>::empty());
        while frames.len() < number_of_entries
            invariant
                u4_at(inputs@, index) == Ok::<(usize, usize), Error>((length, body)),
                u2_at(inputs@, body) == Ok::<(usize, usize), Error>((number_of_entries, first)),
                frames_from(
                    inputs@,
                    Progress { items: Seq::empty(), index: first },
                    number_of_entries,
                ) == frames_from(
                    inputs@,
                    Progress { items: frames_view(frames@), index: cursor },
                    number_of_entries,
                ),
            decreases number_of_entries - frames@.len(),
        {
            let (frame, next) = StackMapFrame::new(inputs, cursor)?;
            assert(frames_view(frames@.push(frame)) =~= frames_view(frames@).push(frame@));
            frames.push(frame);
            cursor = next;
        }
        check_length(body, length, cursor)?;
        Ok(
            (
                StackMapTable {
                    attribute_name_index,
                    attribute_length: length as u32,
                    number_of_entries,
                    stack_map_frame: frames,
                },
                cursor,
            ),
        )
    }
}

/// The names of the attributes that the class-file format defines.
#[derive(Clone, Copy, Debug, PartialEq, Eq, Structural)]
pub enum AttributeTag {
    SourceFile,
    InnerClasses,
    EnclosingMethod,
    SourceDebugExtension,
    BootstrapMethods,
    ConstantValue,
    Code,
    Exceptions,
    RuntimeVisibleParameterAnnotations,
    RuntimeInvisibleParameterAnnotations,
    AnnotationDefault,
    MethodParameters,
    Synthetic,
    Deprecated,
    Signature,
    RuntimeVisibleAnnotations,
    RuntimeInvisibleAnnotations,
    LineNumberTable,
    LocalVariableTable,
    LocalVariableTypeTable,
    StackMapTable,
    RuntimeVisibleTypeAnnotations,
    RuntimeInvisibleTypeAnnotations,
}

/// The attribute that the format defines under the name `text`, if any.
pub open spec fn attribute_tag_of(text: Seq<char>) -> Option<AttributeTag> {
    if text == "SourceFile"@ {
        Some(AttributeTag::SourceFile)
    } else if text == "InnerClasses"@ {
        Some(AttributeTag::InnerClasses)
    } else if text == "EnclosingMethod"@ {
        Some(AttributeTag::EnclosingMethod)
    } else if text == "SourceDebugExtension"@ {
        Some(AttributeTag::SourceDebugExtension)
    } else if text == "BootstrapMethods"@ {
        Some(AttributeTag::BootstrapMethods)
    } else if text == "ConstantValue"@ {
        Some(AttributeTag::ConstantValue)
    } else if text == "Code"@ {
        Some(AttributeTag::Code)
    } else if text == "Exceptions"@ {
        Some(AttributeTag::Exceptions)
    } else if text == "RuntimeVisibleParameterAnnotations"@ {
        Some(AttributeTag::RuntimeVisibleParameterAnnotations)
    } else if text == "RuntimeInvisibleParameterAnnotations"@ {
        Some(AttributeTag::RuntimeInvisibleParameterAnnotations)
    } else if text == "AnnotationDefault"@ {
        Some(AttributeTag::AnnotationDefault)
    } else if text == "MethodParameters"@ {
        Some(AttributeTag::MethodParameters)
    } else if text == "Synthetic"@ {
        Some(AttributeTag::Synthetic)
    } else if text == "Deprecated"@ {
        Some(AttributeTag::Deprecated)
    } else if text == "Signature"@ {
        Some(AttributeTag::Signature)
    } else if text == "RuntimeVisibleAnnotations"@ {
        Some(AttributeTag::RuntimeVisibleAnnotations)
    } else if text == "RuntimeInvisibleAnnotations"@ {
        Some(AttributeTag::RuntimeInvisibleAnnotations)
    } else if text == "LineNumberTable"@ {
        Some(AttributeTag::LineNumberTable)
    } else if text == "LocalVariableTable"@ {
        Some(AttributeTag::LocalVariableTable)
    } else if text == "LocalVariableTypeTable"@ {
        Some(AttributeTag::LocalVariableTypeTable)
    } else if text == "StackMapTable"@ {
        Some(AttributeTag::StackMapTable)
    } else if text == "RuntimeVisibleTypeAnnotations"@ {
        Some(AttributeTag::RuntimeVisibleTypeAnnotations)
    } else if text == "RuntimeInvisibleTypeAnnotations"@ {
        Some(AttributeTag::RuntimeInvisibleTypeAnnotations)
    } else {
        None
    }
}

/// Whether `input` is the text `literal`.
pub fn same_text(input: &String, literal: &str) -> (r: bool)
    ensures
        r == (input@ == literal@),
{
    let other = String::from_str(literal);
    *input == other
}

impl AttributeTag {
    /// The attribute that the format defines under the name `input`, if any.
    pub fn from(input: &String) -> (r: Option<AttributeTag>)
        ensures
            r == attribute_tag_of(input@),
    {
        if same_text(input, "SourceFile") {
            Some(AttributeTag::SourceFile)
        } else if same_text(input, "InnerClasses") {
            Some(AttributeTag::InnerClasses)
        } else if same_text(input, "EnclosingMethod") {
            Some(AttributeTag::EnclosingMethod)
        } else if same_text(input, "SourceDebugExtension") {
            Some(AttributeTag::SourceDebugExtension)
        } else if same_text(input, "BootstrapMethods") {
            Some(AttributeTag::BootstrapMethods)
        } else if same_text(input, "ConstantValue") {
            Some(AttributeTag::ConstantValue)
        } else if same_text(input, "Code") {
            Some(AttributeTag::Code)
        } else if same_text(input, "Exceptions") {
            Some(AttributeTag::Exceptions)
        } else if same_text(input, "RuntimeVisibleParameterAnnotations") {
            Some(AttributeTag::RuntimeVisibleParameterAnnotations)
        } else if same_text(input, "RuntimeInvisibleParameterAnnotations") {
            Some(AttributeTag::RuntimeInvisibleParameterAnnotations)
        } else if same_text(input, "AnnotationDefault") {
            Some(AttributeTag::AnnotationDefault)
        } else if same_text(input, "MethodParameters") {
            Some(AttributeTag::MethodParameters)
        } else if same_text(input, "Synthetic") {
            Some(AttributeTag::Synthetic)
        } else if same_text(input, "Deprecated") {
            Some(AttributeTag::Deprecated)
        } else if same_text(input, "Signature") {
            Some(AttributeTag::Signature)
        } else if same_text(input, "RuntimeVisibleAnnotations") {
            Some(AttributeTag::RuntimeVisibleAnnotations)
        } else if same_text(input, "RuntimeInvisibleAnnotations") {
            Some(AttributeTag::RuntimeInvisibleAnnotations)
        } else if same_text(input, "LineNumberTable") {
            Some(AttributeTag::LineNumberTable)
        } else if same_text(input, "LocalVariableTable") {
            Some(AttributeTag::LocalVariableTable)
        } else if same_text(input, "LocalVariableTypeTable") {
            Some(AttributeTag::LocalVariableTypeTable)
        } else if same_text(input, "StackMapTable") {
            Some(AttributeTag::StackMapTable)
        } else if same_text(input, "RuntimeVisibleTypeAnnotations") {
            Some(AttributeTag::RuntimeVisibleTypeAnnotations)
        } else if same_text(input, "RuntimeInvisibleTypeAnnotations") {
            Some(AttributeTag::RuntimeInvisibleTypeAnnotations)
        } else {
            None
        }
    }
}

/// One attribute. Source file, line-number table, stack-map table and code are held
/// in full; of the others only the kind is kept.
#[derive(Debug)]
pub enum Attribute {
    SourceFile(SourceFile),
    InnerClasses,
    EnclosingMethod,
    SourceDebugExtension,
    BootstrapMethods,
    ConstantValue,
    Code(Code),
    Exceptions,
    RuntimeVisibleParameterAnnotations,
    RuntimeInvisibleParameterAnnotations,
    AnnotationDefault,
    MethodParameters,
    Synthetic,
    Deprecated,
    Signature,
    RuntimeVisibleAnnotations,
    RuntimeInvisibleAnnotations,
    LineNumberTable(LineNumberTable),
    LocalVariableTable,
    LocalVariableTypeTable,
    StackMapTable(StackMapTable),
    RuntimeVisibleTypeAnnotations,
    RuntimeInvisibleTypeAnnotations,
}

/// An attribute with its lists as sequences.
pub enum AttributeView {
    SourceFile(SourceFile),
    Code(CodeView),
    LineNumberTable(LineNumberTableView),
    StackMapTable(StackMapTableView),
    Other(AttributeTag),
}

/// A code attribute with its lists as sequences.
pub struct CodeView {
    pub attribute_name_index: u16,
    pub attribute_length: u32,
    pub max_stack: u16,
    pub max_locals: u16,
    pub code_length: usize,
    pub code: Seq<Decoded>,
    pub exception_table_length: usize,
    pub exception_table: Seq<ExceptionTableItem>,
    pub attributes_count: usize,
    pub attribute_info: Seq<AttributeView>,
}

/// The view of an attribute.
pub open spec fn attribute_model(attribute: Attribute) -> AttributeView
    decreases attribute, 0nat,
{
    match attribute {
        Attribute::SourceFile(a) => AttributeView::SourceFile(a),
        Attribute::Code(a) => AttributeView::Code(code_model(a)),
        Attribute::LineNumberTable(a) => AttributeView::LineNumberTable(a@),
        Attribute::StackMapTable(a) => AttributeView::StackMapTable(a@),
        Attribute::InnerClasses => AttributeView::Other(AttributeTag::InnerClasses),
        Attribute::EnclosingMethod => AttributeView::Other(AttributeTag::EnclosingMethod),
        Attribute::SourceDebugExtension => AttributeView::Other(
            AttributeTag::SourceDebugExtension,
        ),
        Attribute::BootstrapMethods => AttributeView::Other(AttributeTag::BootstrapMethods),
        Attribute::ConstantValue => AttributeView::Other(AttributeTag::ConstantValue),
        Attribute::Exceptions => AttributeView::Other(AttributeTag::Exceptions),
        Attribute::RuntimeVisibleParameterAnnotations => AttributeView::Other(
            AttributeTag::RuntimeVisibleParameterAnnotations,
        ),
        Attribute::RuntimeInvisibleParameterAnnotations => AttributeView::Other(
            AttributeTag::RuntimeInvisibleParameterAnnotations,
        ),
        Attribute::AnnotationDefault => AttributeView::Other(AttributeTag::AnnotationDefault),
        Attribute::MethodParameters => AttributeView::Other(AttributeTag::MethodParameters),
        Attribute::Synthetic => AttributeView::Other(AttributeTag::Synthetic),
        Attribute::Deprecated => AttributeView::Other(AttributeTag::Deprecated),
        Attribute::Signature => AttributeView::Other(AttributeTag::Signature),
        Attribute::RuntimeVisibleAnnotations => AttributeView::Other(
            AttributeTag::RuntimeVisibleAnnotations,
        ),
        Attribute::RuntimeInvisibleAnnotations => AttributeView::Other(
            AttributeTag::RuntimeInvisibleAnnotations,
        ),
        Attribute::LocalVariableTable => AttributeView::Other(AttributeTag::LocalVariableTable),
        Attribute::LocalVariableTypeTable => AttributeView::Other(
            AttributeTag::LocalVariableTypeTable,
        ),
        Attribute::RuntimeVisibleTypeAnnotations => AttributeView::Other(
            AttributeTag::RuntimeVisibleTypeAnnotations,
        ),
        Attribute::RuntimeInvisibleTypeAnnotations => AttributeView::Other(
            AttributeTag::RuntimeInvisibleTypeAnnotations,
        ),
    }
}

/// The view of a code attribute.
pub open spec fn code_model(code: Code) -> CodeView
    decreases code, 1nat,
{
    CodeView {
        attribute_name_index: code.attribute_name_index,
        attribute_length: code.attribute_length,
        max_stack: code.max_stack,
        max_locals: code.max_locals,
        code_length: code.code_length,
        code: code_view(code.code@),
        exception_table_length: code.exception_table_length,
        exception_table: code.exception_table@,
        attributes_count: code.attributes_count,
        attribute_info: Seq::new(
            code.attribute_info@.len(),
            |i: int|
                if 0 <= i < code.attribute_info@.len() {
                    attribute_model(code.attribute_info@[i])
                } else {
                    AttributeView::Other(AttributeTag::Synthetic)
                },
        ),
    }
}

impl View for Attribute {
    type V = AttributeView;

    open spec fn view(&self) -> AttributeView {
        attribute_model(*self)
    }
}

/// The view of each attribute.
pub open spec fn attributes_view(attributes: Seq<Attribute>) -> Seq<AttributeView> {
    Seq::new(attributes.len(), |i: int| attribute_model(attributes[i]))
}

/// The attribute whose only kept part is its kind `tag`.
pub open spec fn is_opaque(tag: AttributeTag) -> bool {
    !(tag is SourceFile || tag is Code || tag is LineNumberTable || tag is StackMapTable)
}

/// Where reading the instructions of a code array of `code_length` entries ends that
/// starts from `progress`.
pub open spec fn instructions_from(
    bytes: Seq<u8>,
    progress: Progress<Decoded>,
    code_length: usize,
) -> Result<Progress<Decoded>, Error>
    decreases missing_slots(progress.items.len(), code_length),
{
    if progress.items.len() == code_length {
        Ok(progress)
    } else if progress.items.len() > code_length {
        Err(Error::DecodeError(DecodeError::MalformedAttributeLength))
    } else {
        match u1_at(bytes, progress.index) {
            Err(e) => Err(e),
            Ok((tag, operands)) => match decode_at(
                bytes,
                operands,
                tag,
                progress.items.len() as usize,
            ) {
                Err(e) => Err(e),
                Ok((decoded, next, used)) => instructions_from(
                    bytes,
                    Progress {
                        items: progress.items.push(decoded) + padding(used - 1),
                        index: next,
                    },
                    code_length,
                ),
            },
        }
    }
}

/// The code array of `code_length` entries whose first opcode stands at `index`: one
/// entry per byte, each instruction at the offset of its opcode.
pub open spec fn instructions_at(bytes: Seq<u8>, index: usize, code_length: usize) -> Result<
    Progress<Decoded>,
    Error,
> {
    instructions_from(bytes, Progress { items: Seq::empty(), index }, code_length)
}

/// The exception-table entry of eight bytes at `index`.
pub open spec fn exception_entry_at(bytes: Seq<u8>, index: int) -> ExceptionTableItem {
    ExceptionTableItem {
        start_pc: short_at(bytes, index),
        end_pc: short_at(bytes, index + 2),
        handler_pc: short_at(bytes, index + 4),
        catch_type: short_at(bytes, index + 6),
    }
}

/// The attribute, other than code, that starts with its name index at `index`. An
/// attribute that is not held in full is passed over by its declared length.
pub open spec fn plain_attribute_at(
    texts: Seq<Seq<char>>,
    pool: Seq<ConstPoolItem>,
    bytes: Seq<u8>,
    index: usize,
) -> Result<(AttributeView, usize), Error> {
    match attribute_name_at(texts, pool, bytes, index) {
        Err(e) => Err(e),
        Ok((tag, name_index, id, after)) => match tag {
            AttributeTag::SourceFile => match source_file_at(bytes, after, name_index as u16) {
                Err(e) => Err(e),
                Ok((a, next)) => Ok((AttributeView::SourceFile(a), next)),
            },
            AttributeTag::LineNumberTable => match line_number_table_at(
                bytes,
                after,
                name_index as u16,
            ) {
                Err(e) => Err(e),
                Ok((a, next)) => Ok((AttributeView::LineNumberTable(a), next)),
            },
            AttributeTag::StackMapTable => match stack_map_table_at(
                bytes,
                after,
                name_index as u16,
            ) {
                Err(e) => Err(e),
                Ok((a, next)) => Ok((AttributeView::StackMapTable(a), next)),
            },
            AttributeTag::Code => Err(Error::UnsupportedError(UnsupportedError::Attribute(id))),
            _ => match u4_at(bytes, after) {
                Err(e) => Err(e),
                Ok((length, body)) => if available(bytes, body as int, length as int) {
                    Ok((AttributeView::Other(tag), (body + length) as usize))
                } else {
                    Err(Error::DecodeError(DecodeError::FileTooShort))
                },
            },
        },
    }
}

/// The kind of the attribute that starts with its name index at `index`, with the name
/// index, the string id of the name and the index behind the name index.
pub open spec fn attribute_name_at(
    texts: Seq<Seq<char>>,
    pool: Seq<ConstPoolItem>,
    bytes: Seq<u8>,
    index: usize,
) -> Result<(AttributeTag, usize, usize, usize), Error> {
    match u2_at(bytes, index) {
        Err(e) => Err(e),
        Ok((name_index, after)) => match item_at(pool, name_index) {
            ConstPoolItem::ConstantUtf8(entry) => if entry.id >= texts.len() {
                Err(Error::InternalError)
            } else {
                match attribute_tag_of(texts[entry.id as int]) {
                    None => Err(Error::UnsupportedError(UnsupportedError::Attribute(entry.id))),
                    Some(tag) => Ok((tag, name_index, entry.id, after)),
                }
            },
            _ => Err(
                Error::ResolutionError(crate::error::ResolutionError::WrongConstant(name_index)),
            ),
        },
    }
}

/// Where reading attributes other than code ends that starts from `progress` and goes
/// on until `count` of them are read.
pub open spec fn nested_attributes_from(
    texts: Seq<Seq<char>>,
    pool: Seq<ConstPoolItem>,
    bytes: Seq<u8>,
    progress: Progress<AttributeView>,
    count: usize,
) -> Result<Progress<AttributeView>, Error>
    decreases count - progress.items.len(),
{
    if progress.items.len() >= count {
        Ok(progress)
    } else {
        match plain_attribute_at(texts, pool, bytes, progress.index) {
            Err(e) => Err(e),
            Ok((item, next)) => nested_attributes_from(
                texts,
                pool,
                bytes,
                Progress { items: progress.items.push(item), index: next },
                count,
            ),
        }
    }
}

/// `count` attributes other than code in a row at `index`.
pub open spec fn nested_attributes_at(
    texts: Seq<Seq<char>>,
    pool: Seq<ConstPoolItem>,
    bytes: Seq<u8>,
    index: usize,
    count: usize,
) -> Result<Progress<AttributeView>, Error> {
    nested_attributes_from(texts, pool, bytes, Progress { items: Seq::empty(), index }, count)
}

/// The code attribute whose length field starts at `index`.
pub open spec fn code_at(
    texts: Seq<Seq<char>>,
    pool: Seq<ConstPoolItem>,
    bytes: Seq<u8>,
    index: usize,
    attribute_name_index: u16,
) -> Result<(CodeView, usize), Error> {
    match u4_at(bytes, index) {
        Err(e) => Err(e),
        Ok((length, body)) => match u2_at(bytes, body) {
            Err(e) => Err(e),
            Ok((max_stack, after_stack)) => match u2_at(bytes, after_stack) {
                Err(e) => Err(e),
                Ok((max_locals, after_locals)) => match u4_at(bytes, after_locals) {
                    Err(e) => Err(e),
                    Ok((code_length, first)) => match instructions_at(bytes, first, code_length) {
                        Err(e) => Err(e),
                        Ok(code) => match u2_at(bytes, code.index) {
                            Err(e) => Err(e),
                            Ok((exception_table_length, entries)) => if !available(
                                bytes,
                                entries as int,
                                8 * exception_table_length,
                            ) {
                                Err(Error::DecodeError(DecodeError::FileTooShort))
                            } else {
                                match u2_at(
                                    bytes,
                                    (entries + 8 * exception_table_length) as usize,
                                ) {
                                    Err(e) => Err(e),
                                    Ok((attributes_count, nested)) => match nested_attributes_at(
                                        texts,
                                        pool,
                                        bytes,
                                        nested,
                                        attributes_count,
                                    ) {
                                        Err(e) => Err(e),
                                        Ok(attributes) => if length_matches(
                                            body,
                                            length,
                                            attributes.index,
                                        ) {
                                            Ok(
                                                (
                                                    CodeView {
                                                        attribute_name_index,
                                                        attribute_length: length as u32,
                                                        max_stack: max_stack as u16,
                                                        max_locals: max_locals as u16,
                                                        code_length,
                                                        code: code.items,
                                                        exception_table_length,
                                                        exception_table: Seq::new(
                                                            exception_table_length as nat,
                                                            |i: int|
                                                                exception_entry_at(
                                                                    bytes,
                                                                    entries + 8 * i,
                                                                ),
                                                        ),
                                                        attributes_count,
                                                        attribute_info: attributes.items,
                                                    },
                                                    attributes.index,
                                                ),
                                            )
                                        } else {
                                            Err(
                                                Error::DecodeError(
                                                    DecodeError::MalformedAttributeLength,
                                                ),
                                            )
                                        },
                                    },
                                }
                            },
                        },
                    },
                },
            },
        },
    }
}

/// The attribute that starts with its name index at `index`.
pub open spec fn attribute_at(
    texts: Seq<Seq<char>>,
    pool: Seq<ConstPoolItem>,
    bytes: Seq<u8>,
    index: usize,
) -> Result<(AttributeView, usize), Error> {
    match attribute_name_at(texts, pool, bytes, index) {
        Ok((AttributeTag::Code, name_index, _, after)) => match code_at(
            texts,
            pool,
            bytes,
            after,
            name_index as u16,
        ) {
            Err(e) => Err(e),
            Ok((code, next)) => Ok((AttributeView::Code(code), next)),
        },
        _ => plain_attribute_at(texts, pool, bytes, index),
    }
}

/// Where reading attributes ends that starts from `progress` and goes on until `count`
/// of them are read.
pub open spec fn attributes_from(
    texts: Seq<Seq<char>>,
    pool: Seq<ConstPoolItem>,
    bytes: Seq<u8>,
    progress: Progress<AttributeView>,
    count: usize,
) -> Result<Progress<AttributeView>, Error>
    decreases count - progress.items.len(),
{
    if progress.items.len() >= count {
        Ok(progress)
    } else {
        match attribute_at(texts, pool, bytes, progress.index) {
            Err(e) => Err(e),
            Ok((item, next)) => attributes_from(
                texts,
                pool,
                bytes,
                Progress { items: progress.items.push(item), index: next },
                count,
            ),
        }
    }
}

/// `count` attributes in a row at `index`.
pub open spec fn attributes_at(
    texts: Seq<Seq<char>>,
    pool: Seq<ConstPoolItem>,
    bytes: Seq<u8>,
    index: usize,
    count: usize,
) -> Result<Progress<AttributeView>, Error> {
    attributes_from(texts, pool, bytes, Progress { items: Seq::empty(), index }, count)
}

/// The attribute of kind `tag` of which only the kind is kept.
fn opaque_attribute(tag: AttributeTag) -> (r: Attribute)
    requires
        is_opaque(tag),
    ensures
        r@ == AttributeView::Other(tag),
{
    match tag {
        AttributeTag::InnerClasses => Attribute::InnerClasses,
        AttributeTag::EnclosingMethod => Attribute::EnclosingMethod,
        AttributeTag::SourceDebugExtension => Attribute::SourceDebugExtension,
        AttributeTag::BootstrapMethods => Attribute::BootstrapMethods,
        AttributeTag::ConstantValue => Attribute::ConstantValue,
        AttributeTag::Exceptions => Attribute::Exceptions,
        AttributeTag::RuntimeVisibleParameterAnnotations => {
            Attribute::RuntimeVisibleParameterAnnotations
        },
        AttributeTag::RuntimeInvisibleParameterAnnotations => {
            Attribute::RuntimeInvisibleParameterAnnotations
        },
        AttributeTag::AnnotationDefault => Attribute::AnnotationDefault,
        AttributeTag::MethodParameters => Attribute::MethodParameters,
        AttributeTag::Synthetic => Attribute::Synthetic,
        AttributeTag::Deprecated => Attribute::Deprecated,
        AttributeTag::Signature => Attribute::Signature,
        AttributeTag::RuntimeVisibleAnnotations => Attribute::RuntimeVisibleAnnotations,
        AttributeTag::RuntimeInvisibleAnnotations => Attribute::RuntimeInvisibleAnnotations,
        AttributeTag::LocalVariableTable => Attribute::LocalVariableTable,
        AttributeTag::LocalVariableTypeTable => Attribute::LocalVariableTypeTable,
        AttributeTag::RuntimeVisibleTypeAnnotations => Attribute::RuntimeVisibleTypeAnnotations,
        _ => Attribute::RuntimeInvisibleTypeAnnotations,
    }
}

/// Reads the name index of an attribute and finds its kind.
fn read_attribute_name(
    string_pool: &StringPool,
    constant_pool: &ConstantPool,
    inputs: &[u8],
    index: usize,
) -> (r: Result<(AttributeTag, usize, usize, usize), Error>)
    ensures
        r == attribute_name_at(string_pool@, constant_pool@, inputs@, index),
        r matches Ok((_, name_index, _, _)) ==> name_index < 0x1_0000,
{
    let (name_index, after) = read_u2(inputs, index)?;
    match constant_pool.item(name_index) {
        ConstPoolItem::ConstantUtf8(entry) => {
            let name = string_pool.get_value(&entry.id)?;
            match AttributeTag::from(&name) {
                None => Err(Error::UnsupportedError(UnsupportedError::Attribute(entry.id))),
                Some(tag) => Ok((tag, name_index, entry.id, after)),
            }
        },
        _ => Err(Error::ResolutionError(crate::error::ResolutionError::WrongConstant(name_index))),
    }
}

/// Reads an attribute of kind `tag`, which is not code, behind its name index.
fn read_plain_attribute(
    inputs: &[u8],
    tag: AttributeTag,
    name_index: usize,
    id: usize,
    after: usize,
) -> (r: Result<(Attribute, usize), Error>)
    requires
        name_index < 0x1_0000,
    ensures
        forall|texts: Seq<Seq<char>>, pool: Seq<ConstPoolItem>, index: usize|
            #[trigger] attribute_name_at(texts, pool, inputs@, index) == Ok::<
                (AttributeTag, usize, usize, usize),
                Error,
            >((tag, name_index, id, after)) ==> match r {
                Ok((attribute, next)) => plain_attribute_at(texts, pool, inputs@, index) == Ok::<
                    (AttributeView, usize),
                    Error,
                >((attribute@, next)),
                Err(e) => plain_attribute_at(texts, pool, inputs@, index) == Err::<
                    (AttributeView, usize),
                    Error,
                >(e),
            },
{
    match tag {
        AttributeTag::SourceFile => {
            let (a, next) = SourceFile::new(inputs, after, name_index as u16)?;
            Ok((Attribute::SourceFile(a), next))
        },
        AttributeTag::LineNumberTable => {
            let (a, next) = LineNumberTable::new(inputs, after, name_index as u16)?;
            Ok((Attribute::LineNumberTable(a), next))
        },
        AttributeTag::StackMapTable => {
            let (a, next) = StackMapTable::new(inputs, after, name_index as u16)?;
            Ok((Attribute::StackMapTable(a), next))
        },
        AttributeTag::Code => Err(Error::UnsupportedError(UnsupportedError::Attribute(id))),
        _ => {
            let (length, body) = read_u4(inputs, after)?;
            if inputs.len() - body < length {
                return Err(Error::DecodeError(DecodeError::FileTooShort));
            }
            Ok((opaque_attribute(tag), body + length))
        },
    }
}

impl Attribute {
    /// Parses the attribute that starts with its name index at `index`. Its name is looked
    /// up in `constant_pool` and `string_pool`.
    pub fn new(
        string_pool: &StringPool,
        constant_pool: &ConstantPool,
        inputs: &[u8],
        index: usize,
    ) -> (r: Result<(Attribute, usize), Error>)
        ensures
            match r {
                Ok((attribute, next)) => attribute_at(
                    string_pool@,
                    constant_pool@,
                    inputs@,
                    index,
                ) == Ok::<(AttributeView, usize), Error>((attribute@, next)),
                Err(e) => attribute_at(string_pool@, constant_pool@, inputs@, index) == Err::<
                    (AttributeView, usize),
                    Error,
                >(e),
            },
    {
        let (tag, name_index, id, after) = read_attribute_name(
            string_pool,
            constant_pool,
            inputs,
            index,
        )?;
        match tag {
            AttributeTag::Code => {
                let (code, next) = Code::new(
                    string_pool,
                    constant_pool,
                    inputs,
                    after,
                    name_index as u16,
                )?;
                Ok((Attribute::Code(code), next))
            },
            _ => read_plain_attribute(inputs, tag, name_index, id, after),
        }
    }

    /// Parses an attribute that stands inside a code attribute, where no code attribute
    /// is accepted.
    pub fn nested(
        string_pool: &StringPool,
        constant_pool: &ConstantPool,
        inputs: &[u8],
        index: usize,
    ) -> (r: Result<(Attribute, usize), Error>)
        ensures
            match r {
                Ok((attribute, next)) => plain_attribute_at(
                    string_pool@,
                    constant_pool@,
                    inputs@,
                    index,
                ) == Ok::<(AttributeView, usize), Error>((attribute@, next)),
                Err(e) => plain_attribute_at(string_pool@, constant_pool@, inputs@, index)
                    == Err::<(AttributeView, usize), Error>(e),
            },
    {
        let (tag, name_index, id, after) = read_attribute_name(
            string_pool,
            constant_pool,
            inputs,
            index,
        )?;
        read_plain_attribute(inputs, tag, name_index, id, after)
    }

    /// Parses `count` attributes in a row that stand inside a code attribute.
    pub fn nested_list(
        string_pool: &StringPool,
        constant_pool: &ConstantPool,
        inputs: &[u8],
        index: usize,
        count: usize,
    ) -> (r: Result<(Vec<Attribute>, usize), Error>)
        ensures
            match r {
                Ok((attributes, next)) => nested_attributes_at(
                    string_pool@,
                    constant_pool@,
                    inputs@,
                    index,
                    count,
                ) == Ok::<Progress<AttributeView>, Error>(
                    Progress { items: attributes_view(attributes@), index: next },
                ),
                Err(e) => nested_attributes_at(
                    string_pool@,
                    constant_pool@,
                    inputs@,
                    index,
                    count,
                ) == Err::<Progress<AttributeView>, Error>(e),
            },
    {
        let mut attributes: Vec<Attribute> = Vec::new();
        let mut cursor = index;
        assert(attributes_view(attributes@) =~= Seq::<AttributeView>::empty());
        while attributes.len() < count
            invariant
                nested_attributes_at(string_pool@, constant_pool@, inputs@, index, count)
                    == nested_attributes_from(
                    string_pool@,
                    constant_pool@,
                    inputs@,
                    Progress { items: attributes_view(attributes@), index: cursor },
                    count,
                ),
            decreases count - attributes@.len(),
        {
            let (attribute, next) = Attribute::nested(string_pool, constant_pool, inputs, cursor)?;
            assert(attributes_view(attributes@.push(attribute)) =~= attributes_view(
                attributes@,
            ).push(attribute@));
            attributes.push(attribute);
            cursor = next;
        }
        Ok((attributes, cursor))
    }

    /// Parses `count` attributes in a row, the first at `index`.
    pub fn list(
        string_pool: &StringPool,
        constant_pool: &ConstantPool,
        inputs: &[u8],
        index: usize,
        count: usize,
    ) -> (r: Result<(Vec<Attribute>, usize), Error>)
        ensures
            match r {
                Ok((attributes, next)) => attributes_at(
                    string_pool@,
                    constant_pool@,
                    inputs@,
                    index,
                    count,
                ) == Ok::<Progress<AttributeView>, Error>(
                    Progress { items: attributes_view(attributes@), index: next },
                ),
                Err(e) => attributes_at(string_pool@, constant_pool@, inputs@, index, count)
                    == Err::<Progress<AttributeView>, Error>(e),
            },
    {
        let mut attributes: Vec<Attribute> = Vec::new();
        let mut cursor = index;
        assert(attributes_view(attributes@) =~= Seq::<AttributeView>::empty());
        while attributes.len() < count
            invariant
                attributes_at(string_pool@, constant_pool@, inputs@, index, count)
                    == attributes_from(
                    string_pool@,
                    constant_pool@,
                    inputs@,
                    Progress { items: attributes_view(attributes@), index: cursor },
                    count,
                ),
            decreases count - attributes@.len(),
        {
            let (attribute, next) = Attribute::new(string_pool, constant_pool, inputs, cursor)?;
            assert(attributes_view(attributes@.push(attribute)) =~= attributes_view(
                attributes@,
            ).push(attribute@));
            attributes.push(attribute);
            cursor = next;
        }
        Ok((attributes, cursor))
    }
}

} // verus!
