use vstd::prelude::*;

verus! {

/// A setting that had to be given at build time was not.
pub struct UnsetSetting {
    pub name: String,
}

/// `<name> not set at build time`
pub open spec fn unset_message(name: Seq<char>) -> Seq<char> {
    name + " not set at build time"@
}

impl UnsetSetting {
    /// The error's text.
    pub fn message(&self) -> (res: String)
        ensures
            res@ == unset_message(self.name@),
    {
        let mut s = self.name.clone();
        s.append(" not set at build time");
        s
    }
}

/// The build-time value of setting `name`, or an error that names it.
pub fn env_or(name: &str, value: Option<&'static str>) -> (res: Result<&'static str, UnsetSetting>)
    ensures
        match value {
            Some(v) => res == Ok::<&'static str, UnsetSetting>(v),
            None => res matches Err(e) && e.name@ == name@,
        },
{
    match value {
        Some(v) => Ok(v),
        None => Err(UnsetSetting { name: String::from_str(name) }),
    }
}

} // verus!
