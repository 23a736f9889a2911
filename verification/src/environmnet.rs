//! Which environment the application runs in, decided from the setting the
//! surrounding application reads.

use vstd::prelude::*;

verus! {

/// The environment the application runs in.
pub enum Environment {
    DEV,
    TEST,
    PROD,
}

/// The environment a setting string names; anything unrecognized means
/// development.
pub open spec fn spec_environment_of(setting: Seq<char>) -> Environment {
    if setting == "dev"@ {
        Environment::DEV
    } else if setting == "test"@ {
        Environment::TEST
    } else if setting == "prod"@ {
        Environment::PROD
    } else {
        Environment::DEV
    }
}

/// Decides the environment from the setting's value; the surrounding
/// application reads the setting and hands it in.
pub fn get_environment(setting: &str) -> (r: Environment)
    ensures
        r == spec_environment_of(setting@),
{
    let value = String::from_str(setting);
    if value.eq(&String::from_str("dev")) {
        Environment::DEV
    } else if value.eq(&String::from_str("test")) {
        Environment::TEST
    } else if value.eq(&String::from_str("prod")) {
        Environment::PROD
    } else {
        Environment::DEV
    }
}

/// Is this the development environment?
pub fn is_dev(environment: &Environment) -> (r: bool)
    ensures
        r == (environment is DEV),
{
    match *environment {
        Environment::DEV => true,
        _ => false,
    }
}

/// Is this the test environment?
pub fn is_test(environment: &Environment) -> (r: bool)
    ensures
        r == (environment is TEST),
{
    match *environment {
        Environment::TEST => true,
        _ => false,
    }
}

/// Is this the production environment?
pub fn is_prod(environment: &Environment) -> (r: bool)
    ensures
        r == (environment is PROD),
{
    match *environment {
        Environment::PROD => true,
        _ => false,
    }
}

} // verus!
