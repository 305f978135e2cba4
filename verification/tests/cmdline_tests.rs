use aphrodite::cmdline::{
    Argument, ArgumentValidator, ArgumentValue, Cmdline, CmdlineValidator, ERR_INVALID_ARGUMENT,
    ERR_INVALID_FLAG, Flag, FlagValidator, Validator,
};
use aphrodite::errors::Error;

struct NamePrefixValidator {
    prefix: &'static str,
}

impl Validator for NamePrefixValidator {
    type Validates = Argument;

    fn spec_valid(&self, value: &Argument) -> bool {
        value.name.starts_with(self.prefix)
    }

    fn validate(&self, value: &Argument) -> Result<(), Error<'static>> {
        if value.name.starts_with(self.prefix) {
            Ok(())
        } else {
            Err(Error::new("argument name has the wrong prefix", -10))
        }
    }
}

impl ArgumentValidator for NamePrefixValidator {}

struct ShortFlagValidator {}

impl Validator for ShortFlagValidator {
    type Validates = Flag;

    fn spec_valid(&self, value: &Flag) -> bool {
        value.name.len() <= 8
    }

    fn validate(&self, value: &Flag) -> Result<(), Error<'static>> {
        if value.name.len() <= 8 {
            Ok(())
        } else {
            Err(Error::new("flag name too long", -11))
        }
    }
}

impl FlagValidator for ShortFlagValidator {}

fn arg(name: &str) -> Argument {
    Argument { name: name.to_string(), value: ArgumentValue::Unsigned(1) }
}

fn flag(name: &str) -> Flag {
    Flag { name: name.to_string() }
}

#[test]
fn cmdline_with_accepted_arguments_and_flags_passes() {
    let cmdline = Cmdline {
        arguments: vec![arg("log.level"), arg("log.target")],
        flags: vec![flag("quiet")],
    };
    let v = CmdlineValidator {};
    let avs = vec![NamePrefixValidator { prefix: "log." }];
    let fvs = vec![ShortFlagValidator {}];
    assert!(v.validate(&cmdline, &avs, &fvs).is_ok());
}

#[test]
fn one_accepting_validator_is_enough() {
    let cmdline = Cmdline { arguments: vec![arg("net.device")], flags: vec![] };
    let v = CmdlineValidator {};
    let avs = vec![
        NamePrefixValidator { prefix: "log." },
        NamePrefixValidator { prefix: "net." },
    ];
    let fvs: Vec<ShortFlagValidator> = vec![];
    assert!(v.validate(&cmdline, &avs, &fvs).is_ok());
}

#[test]
fn rejected_argument_reports_the_argument_error() {
    let cmdline = Cmdline {
        arguments: vec![arg("log.level"), arg("mystery")],
        flags: vec![flag("quiet")],
    };
    let v = CmdlineValidator {};
    let avs = vec![NamePrefixValidator { prefix: "log." }];
    let fvs = vec![ShortFlagValidator {}];
    let err = v.validate(&cmdline, &avs, &fvs).unwrap_err();
    assert_eq!(err.code(), ERR_INVALID_ARGUMENT);
}

#[test]
fn rejected_flag_reports_the_flag_error() {
    let cmdline = Cmdline {
        arguments: vec![arg("log.level")],
        flags: vec![flag("a-very-long-flag-name")],
    };
    let v = CmdlineValidator {};
    let avs = vec![NamePrefixValidator { prefix: "log." }];
    let fvs = vec![ShortFlagValidator {}];
    let err = v.validate(&cmdline, &avs, &fvs).unwrap_err();
    assert_eq!(err.code(), ERR_INVALID_FLAG);
}

#[test]
fn empty_cmdline_passes_with_no_validators() {
    let cmdline = Cmdline { arguments: vec![], flags: vec![] };
    let v = CmdlineValidator {};
    let avs: Vec<NamePrefixValidator> = vec![];
    let fvs: Vec<ShortFlagValidator> = vec![];
    assert!(v.validate(&cmdline, &avs, &fvs).is_ok());
}

#[test]
fn argument_values_hold_each_kind() {
    let s = ArgumentValue::Str("text".to_string());
    let f = ArgumentValue::Float("1.5".to_string());
    let i = ArgumentValue::Signed(-4);
    let u = ArgumentValue::Unsigned(4);
    assert!(matches!(s, ArgumentValue::Str(_)));
    assert!(matches!(f, ArgumentValue::Float(_)));
    assert!(matches!(i, ArgumentValue::Signed(-4)));
    assert!(matches!(u, ArgumentValue::Unsigned(4)));
}
