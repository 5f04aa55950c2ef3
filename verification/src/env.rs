//! Environment variables: where a value is looked up, and the `name:value`
//! references of the configuration.
use vstd::prelude::*;
use vstd::string::StringExecFns;
use crate::error::AppError;
use crate::text::{split_on, split_str, string_of};

verus! {

/// The value of a `prefix:value` reference: what follows its only colon.
/// Text without exactly one colon is refused with `Invalid format`.
pub fn var_name(name: &str) -> (r: Result<String, String>)
    ensures
        split_on(name@, ':').len() == 2 ==> r is Ok && r->Ok_0@ == split_on(name@, ':')[1],
        split_on(name@, ':').len() != 2 ==> r is Err && r->Err_0@ == "Invalid format"@,
{
    let parts = split_str(name, ':');
    if parts.len() != 2 {
        return Err(string_of("Invalid format"));
    }
    assert(parts@[1]@ == parts@.map_values(|l: String| l@)[1]);
    Ok(parts[1].clone())
}

/// The value of the environment variable `name`: the one the `.env` file gives
/// when it gives one, else the one of the process; an error naming the
/// variable when neither has it.
pub fn get_env_var(name: &str, from_env_file: Option<String>, from_process: Option<String>) -> (r: Result<String, AppError>)
    ensures
        match (from_env_file, from_process) {
            (Some(v), _) => r is Ok && r->Ok_0@ == v@,
            (None, Some(v)) => r is Ok && r->Ok_0@ == v@,
            (None, None) => r matches Err(AppError::Application(m)) && m@
                == "Could not find environment variable with the name "@ + name@,
        },
{
    match from_env_file {
        Some(v) => Ok(v),
        None => match from_process {
            Some(v) => Ok(v),
            None => {
                let mut m = string_of("Could not find environment variable with the name ");
                m.append(name);
                Err(AppError::Application(m))
            },
        },
    }
}

} // verus!
