//! Labels of the decompiler's output

use vstd::prelude::*;

verus! {

/// Label display for a position within the executable
pub enum LabelDisplay<'a> {
    /// Label within the current function
    CurFuncLabel(&'a str),
    /// Label within another function
    OtherFuncLabel { func: &'a str, label: &'a str },
    /// A function itself
    OtherFunc { func: &'a str },
    /// A data
    Data { name: &'a str },
}

impl<'a> LabelDisplay<'a> {
    /// The text of this label: `.label` within the current function,
    /// `func.label` within another one, else the function's or data's name.
    pub open spec fn spec_text(&self) -> Seq<char> {
        match *self {
            LabelDisplay::CurFuncLabel(label) => seq!['.'] + label@,
            LabelDisplay::OtherFuncLabel { func, label } => func@ + seq!['.'] + label@,
            LabelDisplay::OtherFunc { func } => func@,
            LabelDisplay::Data { name } => name@,
        }
    }

    /// Returns the text of this label
    pub fn to_string(&self) -> (res: String)
        ensures
            res@ == self.spec_text(),
    {
        match self {
            LabelDisplay::CurFuncLabel(label) => {
                let mut res = String::from_str(".");
                proof {
                    reveal_strlit(".");
                }
                res.append(label);
                res
            },
            LabelDisplay::OtherFuncLabel { func, label } => {
                let mut res = String::from_str(func);
                res.append(".");
                proof {
                    reveal_strlit(".");
                }
                res.append(label);
                res
            },
            LabelDisplay::OtherFunc { func } => String::from_str(func),
            LabelDisplay::Data { name } => String::from_str(name),
        }
    }
}

} // verus!
