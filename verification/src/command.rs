//! The conversion of one literal into its text in every supported base.

use crate::error::NumberFormatterError;
use crate::formatter::{NumberFormatter, NumberFormatterFactory};
use crate::number_type::{all_number_types, NumberType};
use crate::reader::read_spec;
use crate::writer::format_spec;
use vstd::prelude::*;
use vstd::string::StringExecFns;

verus! {

/// One line of a conversion: a base and the text of the value in that base.
pub type Entry = (NumberType, String);

/// The entries of a conversion with each text taken as a sequence of
/// characters.
pub open spec fn entries_view(entries: Seq<Entry>) -> Seq<(NumberType, Seq<char>)> {
    Seq::new(entries.len(), |i: int| (entries[i].0, entries[i].1@))
}

/// The text of `value` in every supported base, in reporting order.
pub open spec fn format_all_spec(value: int) -> Seq<(NumberType, Seq<char>)> {
    Seq::new(
        all_number_types().len(),
        |i: int| (all_number_types()[i], format_spec(all_number_types()[i], value)),
    )
}

/// What converting the literal `s` of the given base gives: the error of
/// reading it, or the text of its value in every supported base.
pub open spec fn convert_spec(number_type: NumberType, s: Seq<char>) -> Result<
    Seq<(NumberType, Seq<char>)>,
    NumberFormatterError,
> {
    match read_spec(number_type, s) {
        Ok(value) => Ok(format_all_spec(value as int)),
        Err(e) => Err(e),
    }
}

/// The outcome of a conversion with each text taken as a sequence of
/// characters.
pub open spec fn outcome_view(outcome: Result<Vec<Entry>, NumberFormatterError>) -> Result<
    Seq<(NumberType, Seq<char>)>,
    NumberFormatterError,
> {
    match outcome {
        Ok(entries) => Ok(entries_view(entries@)),
        Err(e) => Err(e),
    }
}

/// Reads `text` as a literal of the given base and writes its value in every
/// supported base, in the order `Integer`, `Hexadecimal`, `Binary`.
///
/// Where the literal cannot be read, the error of reading it is returned and
/// nothing is written.
pub fn parse_and_format_all(number_type: NumberType, text: &str) -> (outcome: Result<
    Vec<Entry>,
    NumberFormatterError,
>)
    ensures
        outcome_view(outcome) == convert_spec(number_type, text@),
{
    let mut vec = Vec::<Entry>::new();
    let formatter = NumberFormatterFactory::new_number_formatter(&number_type);
    let num = formatter.read(text)?;
    for target in it: NumberType::iter()
        invariant
            it.seq().unref() == all_number_types(),
            entries_view(vec@) == format_all_spec(num as int).take(it.index()),
    {
        let formatter = NumberFormatterFactory::new_number_formatter(target);
        let output = formatter.format(num)?;
        let ghost before = vec@;
        vec.push((*target, output));
        assert(entries_view(vec@) =~= entries_view(before).push((*target, output@)));
        assert(format_all_spec(num as int).take(it.index() + 1) =~= format_all_spec(
            num as int,
        ).take(it.index()).push((*target, output@)));
    }
    assert(format_all_spec(num as int).take(all_number_types().len() as int)
        =~= format_all_spec(num as int));
    Ok(vec)
}

/// What is to be converted: a literal and the base that it is written in.
#[derive(Debug)]
pub struct CommandOptions {
    pub number_type: NumberType,
    pub number: String,
}

impl CommandOptions {
    /// The options that ask for `input` to be read in the given base.
    pub fn new(number_type: NumberType, input: &str) -> (options: Self)
        ensures
            options.number_type == number_type,
            options.number@ == input@,
    {
        Self { number_type, number: String::from_str(input) }
    }
}

/// A conversion that is ready to run.
pub struct CommandContext {
    command_options: CommandOptions,
}

impl CommandContext {
    /// The options that this conversion runs on.
    pub closed spec fn options(&self) -> CommandOptions {
        self.command_options
    }

    /// The conversion that runs on the given options.
    pub fn new(command_options: CommandOptions) -> (context: Self)
        ensures
            context.options() == command_options,
    {
        Self { command_options }
    }

    /// Reads the literal of the options in their base and writes its value in
    /// every supported base, in the order `Integer`, `Hexadecimal`, `Binary`.
    ///
    /// Where the literal cannot be read, the error of reading it is returned
    /// and nothing is written.
    pub fn format_all_number_types(&self) -> (outcome: Result<Vec<Entry>, NumberFormatterError>)
        ensures
            outcome_view(outcome) == convert_spec(
                self.options().number_type,
                self.options().number@,
            ),
    {
        parse_and_format_all(self.command_options.number_type, self.command_options.number.as_str())
    }
}

} // verus!
