//! Classes whose methods the host implements.

use vstd::prelude::*;
use crate::error::{Error, StateError, UnsupportedError};
use crate::operand::Item;
use crate::stackframe::{frames_view, FrameView, Stackframe};
use crate::string_pool::{interned, StringPool};
use crate::text::{decimal, decimal_text, digits, push_index};
use crate::utils::{join_long, long_value};

verus! {

/// What a built-in method does.
#[derive(Clone, Copy, Debug, PartialEq, Eq, Structural)]
pub enum BuitlInCodeType {
    Println,
    JavaLangObjectInit,
    JavaLangSystemInit,
    JavaLangObjectToString,
}

#[derive(Clone, Copy, Debug, PartialEq, Eq, Structural)]
pub enum BuiltInLocal {
    Println,
}

#[derive(Clone, Copy, Debug, PartialEq, Eq, Structural)]
pub struct BuiltInMethod {
    pub name: usize,
    pub code_type: BuitlInCodeType,
}

/// A built-in class: the string id of its name, and its methods.
#[derive(Debug)]
pub struct BuiltIn {
    pub class_name: usize,
    pub methods: Vec<BuiltInMethod>,
}

/// The first of `methods` with the name id `name`.
pub open spec fn method_from(methods: Seq<BuiltInMethod>, name: usize, from: int) -> Option<
    BuiltInMethod,
>
    decreases methods.len() - from,
{
    if from < 0 || from >= methods.len() {
        None
    } else if methods[from].name == name {
        Some(methods[from])
    } else {
        method_from(methods, name, from + 1)
    }
}

impl BuiltIn {
    /// A class without methods.
    pub fn new(class_name: usize) -> (r: BuiltIn)
        ensures
            r.class_name == class_name,
            r.methods@ == Seq::<BuiltInMethod>::empty(),
    {
        BuiltIn { class_name, methods: Vec::new() }
    }

    /// The first method with the name id `name`, if there is one.
    pub fn get_method(&self, name: usize) -> (r: Option<BuiltInMethod>)
        ensures
            r == method_from(self.methods@, name, 0),
    {
        let mut i: usize = 0;
        while i < self.methods.len()
            invariant
                i <= self.methods@.len(),
                method_from(self.methods@, name, 0) == method_from(self.methods@, name, i as int),
            decreases self.methods@.len() - i,
        {
            if self.methods[i].name == name {
                return Some(self.methods[i]);
            }
            i += 1;
        }
        None
    }
}

/// What the host is asked to write as one line.
#[derive(Debug)]
pub enum Output {
    /// The text itself.
    Text(String),
    /// The decimal form of the 32-bit floating-point number with these bits.
    Float(u32),
    /// The decimal form of the 64-bit floating-point number with these bits, the upper
    /// half first.
    Double(u32, u32),
}

/// An output with its text as a sequence.
pub enum OutputView {
    Text(Seq<char>),
    Float(u32),
    Double(u32, u32),
}

impl View for Output {
    type V = OutputView;

    open spec fn view(&self) -> OutputView {
        match self {
            Output::Text(text) => OutputView::Text(text@),
            Output::Float(bits) => OutputView::Float(*bits),
            Output::Double(high, low) => OutputView::Double(*high, *low),
        }
    }
}

/// The number of operand-stack slots that a call of a method with the code `code_type`
/// and the descriptor `descriptor` takes from the caller.
pub open spec fn parameter_slots_of(
    code_type: BuitlInCodeType,
    descriptor: Option<Seq<char>>,
) -> usize {
    if code_type is Println && (descriptor == Some("(J)V"@) || descriptor == Some("(D)V"@)) {
        2
    } else {
        1
    }
}

/// The text with the id `id`, if the pool has one.
pub open spec fn text_at(texts: Seq<Seq<char>>, id: usize) -> Option<Seq<char>> {
    if id < texts.len() {
        Some(texts[id as int])
    } else {
        None
    }
}

/// What printing the arguments `locals` writes.
pub open spec fn printed(locals: Seq<Item>, texts: Seq<Seq<char>>) -> Result<OutputView, Error> {
    if locals.len() < 1 {
        Err(Error::StateError(StateError::LocalOutOfRange(0)))
    } else {
        match locals[0] {
            Item::String(id) => match text_at(texts, id) {
                Some(text) => Ok(OutputView::Text(text)),
                None => Err(Error::InternalError),
            },
            Item::Int(value) => Ok(OutputView::Text(decimal(value as int))),
            Item::Boolean(value) => Ok(
                OutputView::Text(
                    if value {
                        "true"@
                    } else {
                        "false"@
                    },
                ),
            ),
            Item::Null => Ok(OutputView::Text("null"@)),
            Item::Objectref(id) => Ok(OutputView::Text("objectref: "@ + digits(id as nat))),
            Item::Float(bits) => Ok(OutputView::Float(bits)),
            Item::Long(high) => if locals.len() < 2 {
                Err(Error::StateError(StateError::LocalOutOfRange(1)))
            } else {
                match locals[1] {
                    Item::Long(low) => Ok(
                        OutputView::Text(decimal(long_value(high, low) as int)),
                    ),
                    _ => Err(Error::StateError(StateError::TypeMismatch)),
                }
            },
            Item::Double(high) => if locals.len() < 2 {
                Err(Error::StateError(StateError::LocalOutOfRange(1)))
            } else {
                match locals[1] {
                    Item::Double(low) => Ok(OutputView::Double(high, low)),
                    _ => Err(Error::StateError(StateError::TypeMismatch)),
                }
            },
            _ => Err(Error::UnsupportedError(UnsupportedError::Descriptor)),
        }
    }
}

/// Computes `printed`.
pub fn print_value(locals: &Vec<Item>, string_map: &StringPool) -> (r: Result<Output, Error>)
    ensures
        match r {
            Ok(output) => printed(locals@, string_map@) == Ok::<OutputView, Error>(output@),
            Err(e) => printed(locals@, string_map@) == Err::<OutputView, Error>(e),
        },
{
    if locals.len() < 1 {
        return Err(Error::StateError(StateError::LocalOutOfRange(0)));
    }
    match locals[0] {
        Item::String(id) => {
            let text = string_map.get_value(&id)?;
            Ok(Output::Text(text))
        },
        Item::Int(value) => Ok(Output::Text(decimal_text(value as i64))),
        Item::Boolean(value) => {
            if value {
                Ok(Output::Text(String::from_str("true")))
            } else {
                Ok(Output::Text(String::from_str("false")))
            }
        },
        Item::Null => Ok(Output::Text(String::from_str("null"))),
        Item::Objectref(id) => {
            let mut text = String::from_str("objectref: ");
            push_index(&mut text, id);
            Ok(Output::Text(text))
        },
        Item::Float(bits) => Ok(Output::Float(bits)),
        Item::Long(high) => {
            if locals.len() < 2 {
                return Err(Error::StateError(StateError::LocalOutOfRange(1)));
            }
            match locals[1] {
                Item::Long(low) => Ok(Output::Text(decimal_text(join_long(high, low)))),
                _ => Err(Error::StateError(StateError::TypeMismatch)),
            }
        },
        Item::Double(high) => {
            if locals.len() < 2 {
                return Err(Error::StateError(StateError::LocalOutOfRange(1)));
            }
            match locals[1] {
                Item::Double(low) => Ok(Output::Double(high, low)),
                _ => Err(Error::StateError(StateError::TypeMismatch)),
            }
        },
        _ => Err(Error::UnsupportedError(UnsupportedError::Descriptor)),
    }
}

/// What a built-in method with the code `code_type` does when it is called with the
/// arguments `locals`: what it has the host write, what it hands back to its caller, and
/// the string pool afterwards.
pub open spec fn builtin_effect(
    code_type: BuitlInCodeType,
    locals: Seq<Item>,
    texts: Seq<Seq<char>>,
) -> Result<(Option<OutputView>, Option<Item>, Seq<Seq<char>>), Error> {
    match code_type {
        BuitlInCodeType::Println => match printed(locals, texts) {
            Ok(output) => Ok((Some(output), None, texts)),
            Err(e) => Err(e),
        },
        BuitlInCodeType::JavaLangObjectInit => Ok((None, None, texts)),
        BuitlInCodeType::JavaLangSystemInit => Ok((None, None, texts)),
        BuitlInCodeType::JavaLangObjectToString => if locals.len() < 1 {
            Err(Error::StateError(StateError::LocalOutOfRange(0)))
        } else {
            match locals[0] {
                Item::Int(value) => {
                    let (pool, id) = interned(texts, decimal(value as int));
                    Ok((None, Some(Item::String(id)), pool))
                },
                _ => Err(Error::StateError(StateError::TypeMismatch)),
            }
        },
    }
}

impl BuiltInMethod {
    pub fn new(name: usize, code_type: BuitlInCodeType) -> (r: BuiltInMethod)
        ensures
            r == (BuiltInMethod { name, code_type }),
    {
        BuiltInMethod { name, code_type }
    }

    /// The number of operand-stack slots that a call with the descriptor whose string id
    /// is `descriptor` takes from the caller: two where one long or double is printed,
    /// else one.
    pub fn parameter_length(&self, string_map: &StringPool, descriptor: usize) -> (r: usize)
        ensures
            r == parameter_slots_of(self.code_type, text_at(string_map@, descriptor)),
    {
        match self.code_type {
            BuitlInCodeType::Println => {
                if string_map.is_text(descriptor, "(J)V") || string_map.is_text(descriptor, "(D)V") {
                    2
                } else {
                    1
                }
            },
            _ => 1,
        }
    }

    /// Runs the method on the arguments `locals`. Hands out what the host is to write, and
    /// what goes back to the caller. On failure the string pool is unchanged.
    pub fn run(&self, string_map: &mut StringPool, locals: &Vec<Item>) -> (r: Result<
        (Option<Output>, Option<Item>),
        Error,
    >)
        requires
            old(string_map).wf(),
        ensures
            final(string_map).wf(),
            match r {
                Ok((output, item)) => {
                    let effect = builtin_effect(self.code_type, locals@, old(string_map)@);
                    &&& effect is Ok
                    &&& effect->Ok_0.1 == item
                    &&& effect->Ok_0.2 == final(string_map)@
                    &&& match output {
                        Some(output) => effect->Ok_0.0 == Some(output@),
                        None => effect->Ok_0.0 is None,
                    }
                },
                Err(e) => builtin_effect(self.code_type, locals@, old(string_map)@) == Err::<
                    (Option<OutputView>, Option<Item>, Seq<Seq<char>>),
                    Error,
                >(e) && final(string_map)@ == old(string_map)@,
            },
    {
        match self.code_type {
            BuitlInCodeType::Println => {
                let output = print_value(locals, string_map)?;
                Ok((Some(output), None))
            },
            BuitlInCodeType::JavaLangObjectInit => Ok((None, None)),
            BuitlInCodeType::JavaLangSystemInit => Ok((None, None)),
            BuitlInCodeType::JavaLangObjectToString => {
                if locals.len() < 1 {
                    return Err(Error::StateError(StateError::LocalOutOfRange(0)));
                }
                match locals[0] {
                    Item::Int(value) => {
                        let id = string_map.insert(decimal_text(value as i64));
                        Ok((None, Some(Item::String(id))))
                    },
                    _ => Err(Error::StateError(StateError::TypeMismatch)),
                }
            },
        }
    }

    /// Runs the method in the topmost of `stackframes`, whose local variables hold the
    /// arguments: that frame leaves, and what the method hands back is pushed onto the
    /// frame below. Hands out what the host is to write. On failure nothing changes.
    pub fn execute(&self, string_map: &mut StringPool, stackframes: &mut Vec<Stackframe>) -> (r:
        Result<Option<Output>, Error>)
        requires
            old(string_map).wf(),
        ensures
            final(string_map).wf(),
            match framed_effect(self.code_type, frames_view(old(stackframes)@), old(string_map)@) {
                Ok((frames, output, texts)) => frames_view(final(stackframes)@) == frames
                    && final(string_map)@ == texts && match r {
                    Ok(Some(written)) => output == Some(written@),
                    Ok(None) => output is None,
                    Err(_) => false,
                },
                Err(e) => r matches Err(x) && x == e && final(stackframes)@ == old(stackframes)@
                    && final(string_map)@ == old(string_map)@,
            },
    {
        let depth = stackframes.len();
        if depth == 0 {
            return Err(Error::StateError(StateError::NoFrame));
        }
        if depth < 2 {
            if let BuitlInCodeType::JavaLangObjectToString = self.code_type {
                return Err(Error::StateError(StateError::NoFrame));
            }
        }
        let (output, item) = self.run(string_map, &stackframes[depth - 1].local_variables)?;
        let _ = stackframes.pop();
        match item {
            Some(item) => {
                let caller = &mut stackframes[depth - 2];
                caller.push(item);
            },
            None => {},
        }
        assert(frames_view(stackframes@) =~= framed_effect(
            self.code_type,
            frames_view(old(stackframes)@),
            old(string_map)@,
        )->Ok_0.0);
        Ok(output)
    }
}

/// What a built-in method with the code `code_type` makes of the frames when it runs in
/// the topmost of them, whose local variables hold the arguments: that frame leaves, and
/// what the method hands back is pushed onto the frame below. With it, what the host is
/// to write, and the string pool afterwards.
pub open spec fn framed_effect(
    code_type: BuitlInCodeType,
    frames: Seq<FrameView>,
    texts: Seq<Seq<char>>,
) -> Result<(Seq<FrameView>, Option<OutputView>, Seq<Seq<char>>), Error> {
    if frames.len() == 0 || (frames.len() < 2 && code_type is JavaLangObjectToString) {
        Err(Error::StateError(StateError::NoFrame))
    } else {
        match builtin_effect(code_type, frames.last().locals, texts) {
            Err(e) => Err(e),
            Ok((output, item, pool)) => Ok(
                (
                    match item {
                        None => frames.drop_last(),
                        Some(item) => frames.drop_last().update(
                            frames.len() - 2,
                            FrameView {
                                stack: frames[frames.len() - 2].stack.push(item),
                                ..frames[frames.len() - 2]
                            },
                        ),
                    },
                    output,
                    pool,
                ),
            ),
        }
    }
}

} // verus!
