//! The code attribute: the body of a method.

use vstd::prelude::*;
use crate::attribute::defs::{
    attributes_view, check_length, code_at, code_model, exception_entry_at, instructions_at,
    instructions_from, lemma_short_at, Attribute, CodeView, Progress,
};
use crate::attribute::instruction::{code_view, Decoded, Instruction};
use crate::constant::ConstantPool;
use crate::error::{DecodeError, Error};
use crate::string_pool::StringPool;
use crate::utils::{read_u1, read_u2, read_u4};

verus! {

#[derive(Clone, Copy, Debug, PartialEq, Eq, Structural)]
pub struct ExceptionTableItem {
    pub start_pc: u16,
    pub end_pc: u16,
    pub handler_pc: u16,
    pub catch_type: u16,
}

/// The body of a method: its limits, its code array indexed by byte offset, its
/// exception table and the attributes nested in it.
#[derive(Debug)]
pub struct Code {
    pub attribute_name_index: u16,
    pub attribute_length: u32,
    pub max_stack: u16,
    pub max_locals: u16,
    pub code_length: usize,
    pub code: Vec<Instruction>,
    pub exception_table_length: usize,
    pub exception_table: Vec<ExceptionTableItem>,
    pub attributes_count: usize,
    pub attribute_info: Vec<Attribute>,
}

impl View for Code {
    type V = CodeView;

    open spec fn view(&self) -> CodeView {
        code_model(*self)
    }
}

/// Reads the instructions of a code array of `code_length` bytes whose first opcode
/// stands at `index`.
fn read_instructions(inputs: &[u8], index: usize, code_length: usize) -> (r: Result<
    (Vec<Instruction>, usize),
    Error,
>)
    ensures
        match r {
            Ok((code, next)) => instructions_at(inputs@, index, code_length) == Ok::<
                Progress<Decoded>,
                Error,
            >(Progress { items: code_view(code@), index: next }),
            Err(e) => instructions_at(inputs@, index, code_length) == Err::<
                Progress<Decoded>,
                Error,
            >(e),
        },
{
    let mut code: Vec<Instruction> = Vec::new();
    let mut cursor = index;
    assert(code_view(code@) =~= Seq::<Decoded>::empty());
    while code.len() < code_length
        invariant
            instructions_at(inputs@, index, code_length) == instructions_from(
                inputs@,
                Progress { items: code_view(code@), index: cursor },
                code_length,
            ),
        decreases crate::constant::missing_slots(code@.len(), code_length),
    {
        let (tag, operands) = read_u1(inputs, cursor)?;
        let (next, _) = Instruction::create_and_push(&mut code, inputs, operands, tag)?;
        cursor = next;
    }
    if code.len() != code_length {
        return Err(Error::DecodeError(DecodeError::MalformedAttributeLength));
    }
    Ok((code, cursor))
}

/// Reads `count` exception-table entries of eight bytes each, the first at `index`.
fn read_exception_table(inputs: &[u8], index: usize, count: usize) -> (r: Result<
    (Vec<ExceptionTableItem>, usize),
    Error,
>)
    requires
        count < 0x1_0000,
    ensures
        match r {
            Ok((table, next)) => crate::utils::available(inputs@, index as int, 8 * count)
                && next == index + 8 * count && table@ == Seq::new(
                count as nat,
                |i: int| exception_entry_at(inputs@, index + 8 * i),
            ),
            Err(e) => !crate::utils::available(inputs@, index as int, 8 * count) && e
                == Error::DecodeError(DecodeError::FileTooShort),
        },
{
    let total: usize = inputs.len();
    if index > total || total - index < 8 * count {
        return Err(Error::DecodeError(DecodeError::FileTooShort));
    }
    let mut table: Vec<ExceptionTableItem> = Vec::with_capacity(count);
    let mut i: usize = 0;
    while i < count
        invariant
            i <= count < 0x1_0000,
            total == inputs@.len(),
            index + 8 * count <= total,
            table@.len() == i,
            forall|j: int| 0 <= j < i ==> table@[j] == exception_entry_at(inputs@, index + 8 * j),
        decreases count - i,
    {
        let at: usize = index + 8 * i;
        proof {
            lemma_short_at(inputs@, at);
            lemma_short_at(inputs@, (at + 2) as usize);
            lemma_short_at(inputs@, (at + 4) as usize);
            lemma_short_at(inputs@, (at + 6) as usize);
        }
        let (start_pc, second) = read_u2(inputs, at)?;
        let (end_pc, third) = read_u2(inputs, second)?;
        let (handler_pc, fourth) = read_u2(inputs, third)?;
        let (catch_type, _) = read_u2(inputs, fourth)?;
        table.push(
            ExceptionTableItem {
                start_pc: start_pc as u16,
                end_pc: end_pc as u16,
                handler_pc: handler_pc as u16,
                catch_type: catch_type as u16,
            },
        );
        i += 1;
    }
    assert(table@ =~= Seq::new(
        count as nat,
        |i: int| exception_entry_at(inputs@, index + 8 * i),
    ));
    Ok((table, index + 8 * count))
}

impl Code {
    /// Parses the code attribute whose length field starts at `index`. The names of the
    /// attributes nested in it are looked up in `constant_pool` and `string_pool`.
    pub fn new(
        string_pool: &StringPool,
        constant_pool: &ConstantPool,
        inputs: &[u8],
        index: usize,
        attribute_name_index: u16,
    ) -> (r: Result<(Code, usize), Error>)
        ensures
            match r {
                Ok((code, next)) => code_at(
                    string_pool@,
                    constant_pool@,
                    inputs@,
                    index,
                    attribute_name_index,
                ) == Ok::<(CodeView, usize), Error>((code@, next)),
                Err(e) => code_at(
                    string_pool@,
                    constant_pool@,
                    inputs@,
                    index,
                    attribute_name_index,
                ) == Err::<(CodeView, usize), Error>(e),
            },
    {
        let (length, body) = read_u4(inputs, index)?;
        let (max_stack, after_stack) = read_u2(inputs, body)?;
        let (max_locals, after_locals) = read_u2(inputs, after_stack)?;
        let (code_length, first) = read_u4(inputs, after_locals)?;
        let (code, after_code) = read_instructions(inputs, first, code_length)?;
        let (exception_table_length, entries) = read_u2(inputs, after_code)?;
        let (exception_table, after_table) = read_exception_table(
            inputs,
            entries,
            exception_table_length,
        )?;
        let (attributes_count, nested) = read_u2(inputs, after_table)?;
        let (attribute_info, end) = Attribute::nested_list(
            string_pool,
            constant_pool,
            inputs,
            nested,
            attributes_count,
        )?;
        check_length(body, length, end)?;
        let code = Code {
            attribute_name_index,
            attribute_length: length as u32,
            max_stack: max_stack as u16,
            max_locals: max_locals as u16,
            code_length,
            code,
            exception_table_length,
            exception_table,
            attributes_count,
            attribute_info,
        };
        proof {
            assert(code@.attribute_info =~= attributes_view(code.attribute_info@));
            assert(code@.exception_table =~= Seq::new(
                exception_table_length as nat,
                |i: int| exception_entry_at(inputs@, entries + 8 * i),
            ));
        }
        Ok((code, end))
    }
}

} // verus!
