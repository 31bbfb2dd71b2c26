use vstd::prelude::*;
use crate::fontdata::Number;
use crate::tables::bytes_spell;
use crate::text::str_eq;

verus! {

/// One element of an array operand.
#[derive(Debug, Clone)]
pub enum ArrayItem {
    String(Vec<u8>),
    Number(Number),
    /// Anything else.
    Other,
}

/// One operand of an operation of a content stream.
#[derive(Debug, Clone)]
pub enum Operand {
    Number(Number),
    Name(Vec<u8>),
    String(Vec<u8>),
    Array(Vec<ArrayItem>),
    /// Anything else.
    Other,
}

/// The six numbers of a matrix operand, in the order in which they are written.
#[derive(Debug, Clone, Copy, PartialEq, Eq, Structural)]
pub struct MatrixOperands {
    pub a: Number,
    pub b: Number,
    pub c: Number,
    pub d: Number,
    pub e: Number,
    pub f: Number,
}

/// What an operation of a content stream asks of the interpreter.
#[derive(Debug, Clone)]
pub enum Instruction {
    /// `q`: push the graphics state.
    Save,
    /// `Q`: pop the graphics state.
    Restore,
    /// `cm`: multiply a matrix into the current transformation matrix.
    Concat(MatrixOperands),
    /// `BT`: set the text matrix and the text line matrix to the identity.
    BeginText,
    /// `ET`: set the text matrix and the text line matrix to the identity.
    EndText,
    /// `Tf`: set the font, by its resource name, and the font size.
    SetFont { name: Vec<u8>, size: Number },
    /// `Tc`: set the character spacing.
    CharSpacing(Number),
    /// `Tw`: set the word spacing.
    WordSpacing(Number),
    /// `Tz`: set the horizontal scaling, in percent.
    HorizontalScaling(Number),
    /// `TL`: set the leading.
    Leading(Number),
    /// `Ts`: set the rise.
    Rise(Number),
    /// `Tm`: set the text matrix and the text line matrix.
    SetTextMatrix(MatrixOperands),
    /// `Td`: move to the start of the next line, offset by (tx, ty).
    MoveText { tx: Number, ty: Number },
    /// `TD`: like `Td`, and set the leading to -ty.
    MoveTextSetLeading { tx: Number, ty: Number },
    /// `T*`: move to the start of the next line, down by the leading.
    NextLine,
    /// `Tj`: show a string.
    ShowString(Vec<u8>),
    /// `TJ`: show strings, moving by the numbers between them.
    ShowArray(Vec<ArrayItem>),
    /// `gs`: apply a graphics state parameter dictionary, by its resource name.
    ExtGState(Vec<u8>),
    /// `w`: set the line width.
    LineWidth(Number),
    /// `Do`: run an XObject, by its resource name.
    Invoke(Vec<u8>),
    /// `BMC`, `BDC`: open a marked-content section.
    BeginMarked,
    /// `EMC`: close a marked-content section.
    EndMarked,
    /// A path, painting or colour operator, or `TJ` without an array: nothing to do.
    Ignored,
    /// An operator that this interpreter does not know.
    Unknown,
}

/// Why an operation cannot be carried out.
#[derive(Debug, Clone, Copy, PartialEq, Eq, Structural)]
pub enum ContentError {
    /// Too few operands, or for a matrix or a move not exactly as many as needed.
    OperandCount,
    /// An operand that should be a number and is not.
    NotANumber,
    /// An operand that should be a name and is not.
    NotAName,
    /// An operand that should be a string and is not.
    NotAString,
    /// A soft mask of an unknown name, or neither a name nor a dictionary.
    BadSoftMask,
    /// A graphics state parameter dictionary whose Type is not ExtGState.
    BadStateType,
}

/// The number that an operand is.
pub open spec fn number_at(operands: Seq<Operand>, i: int) -> Result<Number, ContentError> {
    if i >= operands.len() {
        Err(ContentError::OperandCount)
    } else {
        match operands[i] {
            Operand::Number(n) => Ok(n),
            _ => Err(ContentError::NotANumber),
        }
    }
}

/// The name that an operand is.
pub open spec fn name_at(operands: Seq<Operand>, i: int) -> Result<Vec<u8>, ContentError> {
    if i >= operands.len() {
        Err(ContentError::OperandCount)
    } else {
        match operands[i] {
            Operand::Name(n) => Ok(n),
            _ => Err(ContentError::NotAName),
        }
    }
}

/// Whether every operand is a number.
pub open spec fn all_numbers(operands: Seq<Operand>) -> bool {
    forall|i: int| 0 <= i < operands.len() ==> (#[trigger] operands[i]) is Number
}

/// The matrix that exactly six number operands spell.
pub open spec fn matrix_of(operands: Seq<Operand>) -> Result<MatrixOperands, ContentError> {
    if operands.len() != 6 {
        Err(ContentError::OperandCount)
    } else if !all_numbers(operands) {
        Err(ContentError::NotANumber)
    } else {
        Ok(
            MatrixOperands {
                a: number_at(operands, 0).unwrap(),
                b: number_at(operands, 1).unwrap(),
                c: number_at(operands, 2).unwrap(),
                d: number_at(operands, 3).unwrap(),
                e: number_at(operands, 4).unwrap(),
                f: number_at(operands, 5).unwrap(),
            },
        )
    }
}

/// The offset that exactly two number operands spell.
pub open spec fn offset_of(operands: Seq<Operand>) -> Result<(Number, Number), ContentError> {
    if operands.len() != 2 {
        Err(ContentError::OperandCount)
    } else if !all_numbers(operands) {
        Err(ContentError::NotANumber)
    } else {
        Ok((number_at(operands, 0).unwrap(), number_at(operands, 1).unwrap()))
    }
}

/// Whether an operator builds or paints a path or sets a colour: its operation is
/// passed over.
pub open spec fn is_passed_over(op: Seq<char>) -> bool {
    ||| op == "CS"@
    ||| op == "cs"@
    ||| op == "SC"@
    ||| op == "SCN"@
    ||| op == "sc"@
    ||| op == "scn"@
    ||| op == "G"@
    ||| op == "g"@
    ||| op == "RG"@
    ||| op == "rg"@
    ||| op == "K"@
    ||| op == "k"@
    ||| op == "i"@
    ||| op == "J"@
    ||| op == "j"@
    ||| op == "M"@
    ||| op == "d"@
    ||| op == "ri"@
    ||| op == "m"@
    ||| op == "l"@
    ||| op == "c"@
    ||| op == "v"@
    ||| op == "y"@
    ||| op == "h"@
    ||| op == "re"@
    ||| op == "s"@
    ||| op == "f*"@
    ||| op == "B"@
    ||| op == "B*"@
    ||| op == "b"@
    ||| op == "S"@
    ||| op == "F"@
    ||| op == "f"@
    ||| op == "W"@
    ||| op == "w*"@
    ||| op == "n"@
}

/// What an operation asks of the interpreter, by its operator and operands.
pub open spec fn instruction_of(op: Seq<char>, operands: Seq<Operand>) -> Result<
    Instruction,
    ContentError,
> {
    if op == "q"@ {
        Ok(Instruction::Save)
    } else if op == "Q"@ {
        Ok(Instruction::Restore)
    } else if op == "BT"@ {
        Ok(Instruction::BeginText)
    } else if op == "ET"@ {
        Ok(Instruction::EndText)
    } else if op == "T*"@ {
        Ok(Instruction::NextLine)
    } else if op == "BMC"@ || op == "BDC"@ {
        Ok(Instruction::BeginMarked)
    } else if op == "EMC"@ {
        Ok(Instruction::EndMarked)
    } else if op == "cm"@ {
        match matrix_of(operands) {
            Ok(m) => Ok(Instruction::Concat(m)),
            Err(e) => Err(e),
        }
    } else if op == "Tm"@ {
        match matrix_of(operands) {
            Ok(m) => Ok(Instruction::SetTextMatrix(m)),
            Err(e) => Err(e),
        }
    } else if op == "Td"@ {
        match offset_of(operands) {
            Ok((tx, ty)) => Ok(Instruction::MoveText { tx, ty }),
            Err(e) => Err(e),
        }
    } else if op == "TD"@ {
        match offset_of(operands) {
            Ok((tx, ty)) => Ok(Instruction::MoveTextSetLeading { tx, ty }),
            Err(e) => Err(e),
        }
    } else if op == "Tc"@ {
        match number_at(operands, 0) {
            Ok(n) => Ok(Instruction::CharSpacing(n)),
            Err(e) => Err(e),
        }
    } else if op == "Tw"@ {
        match number_at(operands, 0) {
            Ok(n) => Ok(Instruction::WordSpacing(n)),
            Err(e) => Err(e),
        }
    } else if op == "Tz"@ {
        match number_at(operands, 0) {
            Ok(n) => Ok(Instruction::HorizontalScaling(n)),
            Err(e) => Err(e),
        }
    } else if op == "TL"@ {
        match number_at(operands, 0) {
            Ok(n) => Ok(Instruction::Leading(n)),
            Err(e) => Err(e),
        }
    } else if op == "Ts"@ {
        match number_at(operands, 0) {
            Ok(n) => Ok(Instruction::Rise(n)),
            Err(e) => Err(e),
        }
    } else if op == "w"@ {
        match number_at(operands, 0) {
            Ok(n) => Ok(Instruction::LineWidth(n)),
            Err(e) => Err(e),
        }
    } else if op == "Tf"@ {
        match name_at(operands, 0) {
            Err(e) => Err(e),
            Ok(name) => match number_at(operands, 1) {
                Ok(size) => Ok(Instruction::SetFont { name, size }),
                Err(e) => Err(e),
            },
        }
    } else if op == "gs"@ {
        match name_at(operands, 0) {
            Ok(name) => Ok(Instruction::ExtGState(name)),
            Err(e) => Err(e),
        }
    } else if op == "Do"@ {
        match name_at(operands, 0) {
            Ok(name) => Ok(Instruction::Invoke(name)),
            Err(e) => Err(e),
        }
    } else if op == "Tj"@ {
        if operands.len() == 0 {
            Err(ContentError::OperandCount)
        } else {
            match operands[0] {
                Operand::String(s) => Ok(Instruction::ShowString(s)),
                _ => Err(ContentError::NotAString),
            }
        }
    } else if op == "TJ"@ {
        if operands.len() == 0 {
            Err(ContentError::OperandCount)
        } else {
            match operands[0] {
                Operand::Array(items) => Ok(Instruction::ShowArray(items)),
                _ => Ok(Instruction::Ignored),
            }
        }
    } else if is_passed_over(op) {
        Ok(Instruction::Ignored)
    } else {
        Ok(Instruction::Unknown)
    }
}

/// The number that an operand is.
fn number_operand(operands: &Vec<Operand>, i: usize) -> (out: Result<Number, ContentError>)
    ensures
        out == number_at(operands@, i as int),
{
    if i >= operands.len() {
        return Err(ContentError::OperandCount);
    }
    match &operands[i] {
        Operand::Number(n) => Ok(*n),
        _ => Err(ContentError::NotANumber),
    }
}

/// The name that the first operand is.
fn name_operand(operands: Vec<Operand>) -> (out: Result<Vec<u8>, ContentError>)
    ensures
        out == name_at(operands@, 0),
{
    let mut operands = operands;
    if operands.len() == 0 {
        return Err(ContentError::OperandCount);
    }
    match operands.remove(0) {
        Operand::Name(n) => Ok(n),
        _ => Err(ContentError::NotAName),
    }
}

/// The matrix that the operands spell.
fn matrix_operands(operands: &Vec<Operand>) -> (out: Result<MatrixOperands, ContentError>)
    ensures
        out == matrix_of(operands@),
{
    if operands.len() != 6 {
        return Err(ContentError::OperandCount);
    }
    match (
        number_operand(operands, 0),
        number_operand(operands, 1),
        number_operand(operands, 2),
        number_operand(operands, 3),
        number_operand(operands, 4),
        number_operand(operands, 5),
    ) {
        (Ok(a), Ok(b), Ok(c), Ok(d), Ok(e), Ok(f)) => {
            assert(all_numbers(operands@));
            Ok(MatrixOperands { a, b, c, d, e, f })
        },
        _ => Err(ContentError::NotANumber),
    }
}

/// The offset that the operands spell.
fn offset_operands(operands: &Vec<Operand>) -> (out: Result<(Number, Number), ContentError>)
    ensures
        out == offset_of(operands@),
{
    if operands.len() != 2 {
        return Err(ContentError::OperandCount);
    }
    match (number_operand(operands, 0), number_operand(operands, 1)) {
        (Ok(tx), Ok(ty)) => {
            assert(all_numbers(operands@));
            Ok((tx, ty))
        },
        _ => Err(ContentError::NotANumber),
    }
}

/// Whether an operator builds or paints a path or sets a colour.
fn passed_over(op: &str) -> (passed: bool)
    ensures
        passed == is_passed_over(op@),
{
    let colour = str_eq(op, "CS") || str_eq(op, "cs") || str_eq(op, "SC") || str_eq(op, "SCN")
        || str_eq(op, "sc") || str_eq(op, "scn") || str_eq(op, "G") || str_eq(op, "g") || str_eq(
        op,
        "RG",
    ) || str_eq(op, "rg") || str_eq(op, "K") || str_eq(op, "k");
    let state = str_eq(op, "i") || str_eq(op, "J") || str_eq(op, "j") || str_eq(op, "M")
        || str_eq(op, "d") || str_eq(op, "ri");
    let path = str_eq(op, "m") || str_eq(op, "l") || str_eq(op, "c") || str_eq(op, "v") || str_eq(
        op,
        "y",
    ) || str_eq(op, "h") || str_eq(op, "re");
    let paint = str_eq(op, "s") || str_eq(op, "f*") || str_eq(op, "B") || str_eq(op, "B*")
        || str_eq(op, "b") || str_eq(op, "S") || str_eq(op, "F") || str_eq(op, "f") || str_eq(
        op,
        "W",
    ) || str_eq(op, "w*") || str_eq(op, "n");
    colour || state || path || paint
}

/// Reads an operation of a content stream: what it asks of the interpreter, or
/// why it cannot be carried out.
pub fn decode_operation(operator: &str, operands: Vec<Operand>) -> (out: Result<
    Instruction,
    ContentError,
>)
    ensures
        out == instruction_of(operator@, operands@),
{
    let mut operands = operands;
    if str_eq(operator, "q") {
        Ok(Instruction::Save)
    } else if str_eq(operator, "Q") {
        Ok(Instruction::Restore)
    } else if str_eq(operator, "BT") {
        Ok(Instruction::BeginText)
    } else if str_eq(operator, "ET") {
        Ok(Instruction::EndText)
    } else if str_eq(operator, "T*") {
        Ok(Instruction::NextLine)
    } else if str_eq(operator, "BMC") || str_eq(operator, "BDC") {
        Ok(Instruction::BeginMarked)
    } else if str_eq(operator, "EMC") {
        Ok(Instruction::EndMarked)
    } else if str_eq(operator, "cm") {
        match matrix_operands(&operands) {
            Ok(m) => Ok(Instruction::Concat(m)),
            Err(e) => Err(e),
        }
    } else if str_eq(operator, "Tm") {
        match matrix_operands(&operands) {
            Ok(m) => Ok(Instruction::SetTextMatrix(m)),
            Err(e) => Err(e),
        }
    } else if str_eq(operator, "Td") {
        match offset_operands(&operands) {
            Ok((tx, ty)) => Ok(Instruction::MoveText { tx, ty }),
            Err(e) => Err(e),
        }
    } else if str_eq(operator, "TD") {
        match offset_operands(&operands) {
            Ok((tx, ty)) => Ok(Instruction::MoveTextSetLeading { tx, ty }),
            Err(e) => Err(e),
        }
    } else if str_eq(operator, "Tc") {
        match number_operand(&operands, 0) {
            Ok(n) => Ok(Instruction::CharSpacing(n)),
            Err(e) => Err(e),
        }
    } else if str_eq(operator, "Tw") {
        match number_operand(&operands, 0) {
            Ok(n) => Ok(Instruction::WordSpacing(n)),
            Err(e) => Err(e),
        }
    } else if str_eq(operator, "Tz") {
        match number_operand(&operands, 0) {
            Ok(n) => Ok(Instruction::HorizontalScaling(n)),
            Err(e) => Err(e),
        }
    } else if str_eq(operator, "TL") {
        match number_operand(&operands, 0) {
            Ok(n) => Ok(Instruction::Leading(n)),
            Err(e) => Err(e),
        }
    } else if str_eq(operator, "Ts") {
        match number_operand(&operands, 0) {
            Ok(n) => Ok(Instruction::Rise(n)),
            Err(e) => Err(e),
        }
    } else if str_eq(operator, "w") {
        match number_operand(&operands, 0) {
            Ok(n) => Ok(Instruction::LineWidth(n)),
            Err(e) => Err(e),
        }
    } else if str_eq(operator, "Tf") {
        let size = number_operand(&operands, 1);
        match name_operand(operands) {
            Err(e) => Err(e),
            Ok(name) => match size {
                Ok(size) => Ok(Instruction::SetFont { name, size }),
                Err(e) => Err(e),
            },
        }
    } else if str_eq(operator, "gs") {
        match name_operand(operands) {
            Ok(name) => Ok(Instruction::ExtGState(name)),
            Err(e) => Err(e),
        }
    } else if str_eq(operator, "Do") {
        match name_operand(operands) {
            Ok(name) => Ok(Instruction::Invoke(name)),
            Err(e) => Err(e),
        }
    } else if str_eq(operator, "Tj") {
        if operands.len() == 0 {
            Err(ContentError::OperandCount)
        } else {
            match operands.remove(0) {
                Operand::String(s) => Ok(Instruction::ShowString(s)),
                _ => Err(ContentError::NotAString),
            }
        }
    } else if str_eq(operator, "TJ") {
        if operands.len() == 0 {
            Err(ContentError::OperandCount)
        } else {
            match operands.remove(0) {
                Operand::Array(items) => Ok(Instruction::ShowArray(items)),
                _ => Ok(Instruction::Ignored),
            }
        }
    } else if passed_over(operator) {
        Ok(Instruction::Ignored)
    } else {
        Ok(Instruction::Unknown)
    }
}

/// The value of an entry of a graphics state parameter dictionary, as far as the
/// interpreter reads it.
#[derive(Debug, Clone)]
pub enum StateValue {
    Name(Vec<u8>),
    Dictionary,
    /// Anything else.
    Other,
}

/// What an entry of a graphics state parameter dictionary does to the graphics
/// state.
#[derive(Debug, Clone, Copy, PartialEq, Eq, Structural)]
pub enum StateChange {
    /// Clear the soft mask.
    ClearSoftMask,
    /// Set the soft mask to the entry's dictionary.
    SetSoftMask,
    /// Nothing: the entry is not honoured.
    Nothing,
}

/// What an entry of a graphics state parameter dictionary does: an SMask entry
/// clears the soft mask with the name None and sets it with a dictionary; the Type
/// entry must be the name ExtGState; any other entry does nothing.
pub open spec fn state_change(key: Seq<u8>, value: StateValue) -> Result<StateChange, ContentError> {
    if bytes_spell(key, "SMask") {
        match value {
            StateValue::Name(name) => if bytes_spell(name@, "None") {
                Ok(StateChange::ClearSoftMask)
            } else {
                Err(ContentError::BadSoftMask)
            },
            StateValue::Dictionary => Ok(StateChange::SetSoftMask),
            StateValue::Other => Err(ContentError::BadSoftMask),
        }
    } else if bytes_spell(key, "Type") {
        match value {
            StateValue::Name(name) => if bytes_spell(name@, "ExtGState") {
                Ok(StateChange::Nothing)
            } else {
                Err(ContentError::BadStateType)
            },
            _ => Err(ContentError::BadStateType),
        }
    } else {
        Ok(StateChange::Nothing)
    }
}

/// Reads an entry of a graphics state parameter dictionary.
pub fn apply_state(key: &[u8], value: &StateValue) -> (out: Result<StateChange, ContentError>)
    ensures
        out == state_change(key@, *value),
{
    if crate::tables::bytes_are(key, "SMask") {
        match value {
            StateValue::Name(name) => {
                if crate::tables::bytes_are(name.as_slice(), "None") {
                    Ok(StateChange::ClearSoftMask)
                } else {
                    Err(ContentError::BadSoftMask)
                }
            },
            StateValue::Dictionary => Ok(StateChange::SetSoftMask),
            StateValue::Other => Err(ContentError::BadSoftMask),
        }
    } else if crate::tables::bytes_are(key, "Type") {
        match value {
            StateValue::Name(name) => {
                if crate::tables::bytes_are(name.as_slice(), "ExtGState") {
                    Ok(StateChange::Nothing)
                } else {
                    Err(ContentError::BadStateType)
                }
            },
            _ => Err(ContentError::BadStateType),
        }
    } else {
        Ok(StateChange::Nothing)
    }
}

} // verus!
