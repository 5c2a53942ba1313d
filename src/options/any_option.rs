use crate::error::Error;
use crate::options::string_option::StringOption;
use crate::options::values_option::ValuesOption;
use crate::options::OptionBase;
use vstd::prelude::*;

verus! {

/// An option of any of the value kinds that this library reads, so that one
/// composition can hold options of different kinds. Each step is the step of
/// the option inside.
pub enum AnyOption {
    /// An option whose value is one string.
    Text(StringOption),
    /// An option whose value is a list of strings.
    Texts(ValuesOption<String>),
    /// An option whose value is a list of characters.
    Chars(ValuesOption<char>),
    /// An option whose value is a list of booleans.
    Bools(ValuesOption<bool>),
    /// An option whose value is a list of `u8`.
    U8(ValuesOption<u8>),
    /// An option whose value is a list of `u16`.
    U16(ValuesOption<u16>),
    /// An option whose value is a list of `u32`.
    U32(ValuesOption<u32>),
    /// An option whose value is a list of `u64`.
    U64(ValuesOption<u64>),
    /// An option whose value is a list of `u128`.
    U128(ValuesOption<u128>),
    /// An option whose value is a list of `i8`.
    I8(ValuesOption<i8>),
    /// An option whose value is a list of `i16`.
    I16(ValuesOption<i16>),
    /// An option whose value is a list of `i32`.
    I32(ValuesOption<i32>),
    /// An option whose value is a list of `i64`.
    I64(ValuesOption<i64>),
    /// An option whose value is a list of `i128`.
    I128(ValuesOption<i128>),
}

impl OptionBase for AnyOption {
    open spec fn env_step(&self, envs: Seq<(String, String)>, after: AnyOption) -> bool {
        match self {
            AnyOption::Text(o) => after is Text && o.env_step(envs, after->Text_0),
            AnyOption::Texts(o) => after is Texts && o.env_step(envs, after->Texts_0),
            AnyOption::Chars(o) => after is Chars && o.env_step(envs, after->Chars_0),
            AnyOption::Bools(o) => after is Bools && o.env_step(envs, after->Bools_0),
            AnyOption::U8(o) => after is U8 && o.env_step(envs, after->U8_0),
            AnyOption::U16(o) => after is U16 && o.env_step(envs, after->U16_0),
            AnyOption::U32(o) => after is U32 && o.env_step(envs, after->U32_0),
            AnyOption::U64(o) => after is U64 && o.env_step(envs, after->U64_0),
            AnyOption::U128(o) => after is U128 && o.env_step(envs, after->U128_0),
            AnyOption::I8(o) => after is I8 && o.env_step(envs, after->I8_0),
            AnyOption::I16(o) => after is I16 && o.env_step(envs, after->I16_0),
            AnyOption::I32(o) => after is I32 && o.env_step(envs, after->I32_0),
            AnyOption::I64(o) => after is I64 && o.env_step(envs, after->I64_0),
            AnyOption::I128(o) => after is I128 && o.env_step(envs, after->I128_0),
        }
    }

    open spec fn args_step(&self, args: Seq<String>, after: AnyOption) -> bool {
        match self {
            AnyOption::Text(o) => after is Text && o.args_step(args, after->Text_0),
            AnyOption::Texts(o) => after is Texts && o.args_step(args, after->Texts_0),
            AnyOption::Chars(o) => after is Chars && o.args_step(args, after->Chars_0),
            AnyOption::Bools(o) => after is Bools && o.args_step(args, after->Bools_0),
            AnyOption::U8(o) => after is U8 && o.args_step(args, after->U8_0),
            AnyOption::U16(o) => after is U16 && o.args_step(args, after->U16_0),
            AnyOption::U32(o) => after is U32 && o.args_step(args, after->U32_0),
            AnyOption::U64(o) => after is U64 && o.args_step(args, after->U64_0),
            AnyOption::U128(o) => after is U128 && o.args_step(args, after->U128_0),
            AnyOption::I8(o) => after is I8 && o.args_step(args, after->I8_0),
            AnyOption::I16(o) => after is I16 && o.args_step(args, after->I16_0),
            AnyOption::I32(o) => after is I32 && o.args_step(args, after->I32_0),
            AnyOption::I64(o) => after is I64 && o.args_step(args, after->I64_0),
            AnyOption::I128(o) => after is I128 && o.args_step(args, after->I128_0),
        }
    }

    open spec fn eval_step(&self, after: AnyOption, r: Result<(), Error>) -> bool {
        match self {
            AnyOption::Text(o) => after is Text && o.eval_step(after->Text_0, r),
            AnyOption::Texts(o) => after is Texts && o.eval_step(after->Texts_0, r),
            AnyOption::Chars(o) => after is Chars && o.eval_step(after->Chars_0, r),
            AnyOption::Bools(o) => after is Bools && o.eval_step(after->Bools_0, r),
            AnyOption::U8(o) => after is U8 && o.eval_step(after->U8_0, r),
            AnyOption::U16(o) => after is U16 && o.eval_step(after->U16_0, r),
            AnyOption::U32(o) => after is U32 && o.eval_step(after->U32_0, r),
            AnyOption::U64(o) => after is U64 && o.eval_step(after->U64_0, r),
            AnyOption::U128(o) => after is U128 && o.eval_step(after->U128_0, r),
            AnyOption::I8(o) => after is I8 && o.eval_step(after->I8_0, r),
            AnyOption::I16(o) => after is I16 && o.eval_step(after->I16_0, r),
            AnyOption::I32(o) => after is I32 && o.eval_step(after->I32_0, r),
            AnyOption::I64(o) => after is I64 && o.eval_step(after->I64_0, r),
            AnyOption::I128(o) => after is I128 && o.eval_step(after->I128_0, r),
        }
    }

    open spec fn help_shown(&self, text: Seq<char>) -> bool {
        match self {
            AnyOption::Text(o) => o.help_shown(text),
            AnyOption::Texts(o) => o.help_shown(text),
            AnyOption::Chars(o) => o.help_shown(text),
            AnyOption::Bools(o) => o.help_shown(text),
            AnyOption::U8(o) => o.help_shown(text),
            AnyOption::U16(o) => o.help_shown(text),
            AnyOption::U32(o) => o.help_shown(text),
            AnyOption::U64(o) => o.help_shown(text),
            AnyOption::U128(o) => o.help_shown(text),
            AnyOption::I8(o) => o.help_shown(text),
            AnyOption::I16(o) => o.help_shown(text),
            AnyOption::I32(o) => o.help_shown(text),
            AnyOption::I64(o) => o.help_shown(text),
            AnyOption::I128(o) => o.help_shown(text),
        }
    }

    fn parse_env(&mut self, envs: &Vec<(String, String)>) {
        match self {
            AnyOption::Text(o) => o.parse_env(envs),
            AnyOption::Texts(o) => o.parse_env(envs),
            AnyOption::Chars(o) => o.parse_env(envs),
            AnyOption::Bools(o) => o.parse_env(envs),
            AnyOption::U8(o) => o.parse_env(envs),
            AnyOption::U16(o) => o.parse_env(envs),
            AnyOption::U32(o) => o.parse_env(envs),
            AnyOption::U64(o) => o.parse_env(envs),
            AnyOption::U128(o) => o.parse_env(envs),
            AnyOption::I8(o) => o.parse_env(envs),
            AnyOption::I16(o) => o.parse_env(envs),
            AnyOption::I32(o) => o.parse_env(envs),
            AnyOption::I64(o) => o.parse_env(envs),
            AnyOption::I128(o) => o.parse_env(envs),
        }
    }

    fn parse_args(&mut self, args: &Vec<String>) {
        match self {
            AnyOption::Text(o) => o.parse_args(args),
            AnyOption::Texts(o) => o.parse_args(args),
            AnyOption::Chars(o) => o.parse_args(args),
            AnyOption::Bools(o) => o.parse_args(args),
            AnyOption::U8(o) => o.parse_args(args),
            AnyOption::U16(o) => o.parse_args(args),
            AnyOption::U32(o) => o.parse_args(args),
            AnyOption::U64(o) => o.parse_args(args),
            AnyOption::U128(o) => o.parse_args(args),
            AnyOption::I8(o) => o.parse_args(args),
            AnyOption::I16(o) => o.parse_args(args),
            AnyOption::I32(o) => o.parse_args(args),
            AnyOption::I64(o) => o.parse_args(args),
            AnyOption::I128(o) => o.parse_args(args),
        }
    }

    fn eval(&mut self) -> (r: Result<(), Error>) {
        match self {
            AnyOption::Text(o) => o.eval(),
            AnyOption::Texts(o) => o.eval(),
            AnyOption::Chars(o) => o.eval(),
            AnyOption::Bools(o) => o.eval(),
            AnyOption::U8(o) => o.eval(),
            AnyOption::U16(o) => o.eval(),
            AnyOption::U32(o) => o.eval(),
            AnyOption::U64(o) => o.eval(),
            AnyOption::U128(o) => o.eval(),
            AnyOption::I8(o) => o.eval(),
            AnyOption::I16(o) => o.eval(),
            AnyOption::I32(o) => o.eval(),
            AnyOption::I64(o) => o.eval(),
            AnyOption::I128(o) => o.eval(),
        }
    }

    fn help(&self) -> (r: String) {
        match self {
            AnyOption::Text(o) => o.help(),
            AnyOption::Texts(o) => o.help(),
            AnyOption::Chars(o) => o.help(),
            AnyOption::Bools(o) => o.help(),
            AnyOption::U8(o) => o.help(),
            AnyOption::U16(o) => o.help(),
            AnyOption::U32(o) => o.help(),
            AnyOption::U64(o) => o.help(),
            AnyOption::U128(o) => o.help(),
            AnyOption::I8(o) => o.help(),
            AnyOption::I16(o) => o.help(),
            AnyOption::I32(o) => o.help(),
            AnyOption::I64(o) => o.help(),
            AnyOption::I128(o) => o.help(),
        }
    }
}

} // verus!
