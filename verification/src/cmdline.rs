//! Provide functions and structs for parsing a kernel command line.

use vstd::prelude::*;

use crate::errors::Error;

verus! {

/// Error returned by [`CmdlineValidator::validate`] when an argument is
/// incorrect.
pub const ERR_INVALID_ARGUMENT: i16 = -1;

/// Error returned by [`CmdlineValidator::validate`] when a flag is
/// incorrect.
pub const ERR_INVALID_FLAG: i16 = -2;

/// A value of an argument.
#[derive(Clone)]
pub enum ArgumentValue {
    /// A string argument with the preceeding and following single quotes
    /// removed, and any \' replaced with '.
    Str(String),
    /// A floating-point argument, kept exactly as it was written on the
    /// command line; nothing here interprets the number.
    Float(String),
    /// A signed argument.
    Signed(i128),
    /// A unsigned argument.
    Unsigned(u128),
}

/// A single argument in a [`Cmdline`].
#[derive(Clone)]
pub struct Argument {
    /// The name of an argument.
    pub name: String,
    /// The value of an argument.
    pub value: ArgumentValue,
}

/// A single flag in a [`Cmdline`].
#[derive(Clone)]
pub struct Flag {
    /// The name of a flag.
    pub name: String,
}

/// A kernel command line.
#[derive(Clone)]
pub struct Cmdline {
    /// The arguments of the Cmdline.
    pub arguments: Vec<Argument>,
    /// The flags of the Cmdline.
    pub flags: Vec<Flag>,
}

/// A validator of one of the types in this module. Implementors say in
/// [`Validator::spec_valid`] which values they accept, and
/// [`Validator::validate`] must agree with it.
pub trait Validator {
    /// The type that the trait validates.
    type Validates;

    /// Whether the validator accepts the value, in spec position.
    spec fn spec_valid(&self, value: &Self::Validates) -> bool;

    /// Validate a value.
    fn validate(&self, value: &Self::Validates) -> (r: Result<(), Error<'static>>)
        ensures
            r is Ok <==> self.spec_valid(value),
    ;
}

/// A [`Validator`] that validates arguments.
pub trait ArgumentValidator: Validator<Validates = Argument> {

}

/// A [`Validator`] that validates flags.
pub trait FlagValidator: Validator<Validates = Flag> {

}

/// Whether at least one validator in the list accepts the value.
pub open spec fn spec_some_accepts<V: Validator>(validators: Seq<V>, value: &V::Validates) -> bool {
    exists|j: int| 0 <= j < validators.len() && (#[trigger] validators[j]).spec_valid(value)
}

/// A [`Validator`] that validates cmdlines.
pub struct CmdlineValidator {}

impl CmdlineValidator {
    /// Validate a command line against validator lists: it checks all of
    /// them and if ALL of them report ANY of the arguments incorrect,
    /// then it returns [`ERR_INVALID_ARGUMENT`]; the same for the flags
    /// and [`ERR_INVALID_FLAG`], once every argument has passed.
    pub fn validate<AV: ArgumentValidator, FV: FlagValidator>(
        &self,
        value: &Cmdline,
        argument_validators: &Vec<AV>,
        flag_validators: &Vec<FV>,
    ) -> (r: Result<(), Error<'static>>)
        ensures
            r is Ok <==> ({
                &&& forall|i: int|
                    0 <= i < value.arguments@.len() ==> spec_some_accepts(
                        argument_validators@,
                        #[trigger] &value.arguments@[i],
                    )
                &&& forall|i: int|
                    0 <= i < value.flags@.len() ==> spec_some_accepts(
                        flag_validators@,
                        #[trigger] &value.flags@[i],
                    )
            }),
            r matches Err(e) && e.spec_code() == ERR_INVALID_ARGUMENT <==> (exists|i: int|
                0 <= i < value.arguments@.len() && !spec_some_accepts(
                    argument_validators@,
                    #[trigger] &value.arguments@[i],
                )),
            r matches Err(e) && e.spec_code() == ERR_INVALID_FLAG <==> ((forall|i: int|
                0 <= i < value.arguments@.len() ==> spec_some_accepts(
                    argument_validators@,
                    #[trigger] &value.arguments@[i],
                )) && (exists|i: int|
                0 <= i < value.flags@.len() && !spec_some_accepts(
                    flag_validators@,
                    #[trigger] &value.flags@[i],
                ))),
    {
        let mut i: usize = 0;
        while i < value.arguments.len()
            invariant
                i <= value.arguments@.len(),
                forall|k: int|
                    0 <= k < i ==> spec_some_accepts(
                        argument_validators@,
                        #[trigger] &value.arguments@[k],
                    ),
            decreases value.arguments@.len() - i,
        {
            let arg = &value.arguments[i];
            let mut correct = false;
            let mut j: usize = 0;
            while j < argument_validators.len() && !correct
                invariant
                    j <= argument_validators@.len(),
                    arg == &value.arguments@[i as int],
                    i < value.arguments@.len(),
                    correct ==> spec_some_accepts(argument_validators@, arg),
                    !correct ==> forall|t: int|
                        0 <= t < j ==> !(#[trigger] argument_validators@[t]).spec_valid(arg),
                decreases argument_validators@.len() - j,
            {
                if argument_validators[j].validate(arg).is_ok() {
                    correct = true;
                }
                j = j + 1;
            }
            if !correct {
                proof {
                    assert(!spec_some_accepts(argument_validators@, &value.arguments@[i as int]));
                }
                return Err(Error::new("invalid argument in command line", ERR_INVALID_ARGUMENT));
            }
            i = i + 1;
        }
        let mut i: usize = 0;
        while i < value.flags.len()
            invariant
                i <= value.flags@.len(),
                forall|k: int|
                    0 <= k < value.arguments@.len() ==> spec_some_accepts(
                        argument_validators@,
                        #[trigger] &value.arguments@[k],
                    ),
                forall|k: int|
                    0 <= k < i ==> spec_some_accepts(flag_validators@, #[trigger] &value.flags@[k]),
            decreases value.flags@.len() - i,
        {
            let flag = &value.flags[i];
            let mut correct = false;
            let mut j: usize = 0;
            while j < flag_validators.len() && !correct
                invariant
                    j <= flag_validators@.len(),
                    flag == &value.flags@[i as int],
                    i < value.flags@.len(),
                    correct ==> spec_some_accepts(flag_validators@, flag),
                    !correct ==> forall|t: int|
                        0 <= t < j ==> !(#[trigger] flag_validators@[t]).spec_valid(flag),
                decreases flag_validators@.len() - j,
            {
                if flag_validators[j].validate(flag).is_ok() {
                    correct = true;
                }
                j = j + 1;
            }
            if !correct {
                proof {
                    assert(!spec_some_accepts(flag_validators@, &value.flags@[i as int]));
                }
                return Err(Error::new("invalid flag in command line", ERR_INVALID_FLAG));
            }
            i = i + 1;
        }
        Ok(())
    }
}

} // verus!
