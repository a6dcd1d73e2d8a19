//! What is read of a window, and what the codes of the accessibility interface
//! mean.
use vstd::prelude::*;

use crate::text::same;

verus! {

/// The code of a call that succeeded.
pub const SUCCESS: i32 = 0;

/// The code for a notification that is registered already.
pub const NOTIFICATION_ALREADY_REGISTERED: i32 = -25209;

/// The code for an attribute without a value.
pub const NO_VALUE: i32 = -25212;

/// The attribute that tells whether a window is the main window.
pub const MAIN: &'static str = "AXMain";

/// The attribute that tells what kind of window it is.
pub const SUBROLE: &'static str = "AXSubrole";

/// The attribute that tells whether a window is in full screen.
pub const FULL_SCREEN: &'static str = "AXFullScreen";

/// The attribute that tells whether a window is minimized.
pub const MINIMIZED: &'static str = "AXMinimized";

/// The attribute that holds the position of a window.
pub const POSITION: &'static str = "AXPosition";

/// The attribute that holds the size of a window.
pub const SIZE: &'static str = "AXSize";

/// The subrole of a standard window.
pub const STANDARD_WINDOW: &'static str = "AXStandardWindow";

/// The attributes of a window that decide whether it is adjusted. An attribute
/// that could not be read, or is of another type, is absent.
#[derive(Debug)]
pub struct Readings {
    /// What is read of `MAIN`.
    pub main: Option<bool>,
    /// What is read of `SUBROLE`.
    pub subrole: Option<String>,
    /// What is read of `FULL_SCREEN`.
    pub full_screen: Option<bool>,
    /// What is read of `MINIMIZED`.
    pub minimized: Option<bool>,
}

impl Readings {
    /// A standard window that is the main window of its application.
    pub open spec fn main_window(self) -> bool {
        self.main == Some(true) && (self.subrole matches Some(subrole) && subrole@
            == STANDARD_WINDOW@)
    }

    /// A main window that is neither in full screen nor minimized.
    pub open spec fn adjustable(self) -> bool {
        &&& self.main_window()
        &&& self.full_screen != Some(true)
        &&& self.minimized != Some(true)
    }

    /// Tells whether the window is the main window of its application.
    pub fn is_main_window(&self) -> (r: bool)
        ensures
            r == self.main_window(),
    {
        if !boolean_attribute(self.main) {
            return false;
        }
        match &self.subrole {
            Some(subrole) => same(subrole.as_str(), STANDARD_WINDOW),
            None => false,
        }
    }

    /// Tells whether the window may be resized and moved now.
    pub fn is_adjustable(&self) -> (r: bool)
        ensures
            r == self.adjustable(),
    {
        self.is_main_window() && !boolean_attribute(self.full_screen) && !boolean_attribute(
            self.minimized,
        )
    }
}

/// The value of a boolean attribute: one that is absent counts as false.
pub fn boolean_attribute(value: Option<bool>) -> (r: bool)
    ensures
        r == (value == Some(true)),
{
    match value {
        Some(value) => value,
        None => false,
    }
}

/// What became of reading an attribute, given the code of the call and whether
/// it handed out an object.
pub fn attribute_outcome(code: i32, present: bool) -> (r: Result<(), i32>)
    ensures
        r == if code != SUCCESS {
            Err::<(), i32>(code)
        } else if !present {
            Err::<(), i32>(NO_VALUE)
        } else {
            Ok::<(), i32>(())
        },
{
    if code != SUCCESS {
        return Err(code);
    }
    if present {
        Ok(())
    } else {
        Err(NO_VALUE)
    }
}

/// A window is a main window exactly if it says so and is a standard window. One
/// that keeps either to itself is none.
pub proof fn law_main_windows(readings: Readings)
    ensures
        readings.main_window() ==> readings.main == Some(true) && readings.subrole is Some,
        readings.main == Some(true) && readings.subrole is Some ==> (readings.main_window()
            <==> readings.subrole->Some_0@ == "AXStandardWindow"@),
{
}

/// A main window may be adjusted exactly if it is neither known to be in full
/// screen nor known to be minimized; whether it is the main window does not depend
/// on either.
pub proof fn law_adjustable_windows(a: Readings, b: Readings)
    requires
        a.main == b.main,
        a.subrole == b.subrole,
    ensures
        a.main_window() == b.main_window(),
        a.adjustable() ==> a.main_window(),
        a.full_screen == Some(true) || a.minimized == Some(true) ==> !a.adjustable(),
        a.main_window() && a.full_screen != Some(true) && a.minimized != Some(true)
            ==> a.adjustable(),
{
}

/// The names and codes of the accessibility interface.
pub proof fn law_names_of_attributes()
    ensures
        MAIN@ == "AXMain"@,
        SUBROLE@ == "AXSubrole"@,
        FULL_SCREEN@ == "AXFullScreen"@,
        MINIMIZED@ == "AXMinimized"@,
        POSITION@ == "AXPosition"@,
        SIZE@ == "AXSize"@,
        SUCCESS == 0,
        NOTIFICATION_ALREADY_REGISTERED == -25209,
        NO_VALUE == -25212,
{
}

/// What is read of a window is taken at its word, and what could not be read for a no.
/// Reading succeeds exactly if the call does and hands something out.
pub proof fn law_readings(
    readings: &Readings,
    main: bool,
    adjustable: bool,
    value: Option<bool>,
    truth: bool,
    code: i32,
    present: bool,
    outcome: Result<(), i32>,
)
    requires
        call_ensures(Readings::is_main_window, (readings,), main),
        call_ensures(Readings::is_adjustable, (readings,), adjustable),
        call_ensures(boolean_attribute, (value,), truth),
        call_ensures(attribute_outcome, (code, present), outcome),
    ensures
        main <==> readings.main == Some(true) && readings.subrole is Some
            && readings.subrole->Some_0@ == "AXStandardWindow"@,
        adjustable <==> main && readings.full_screen != Some(true) && readings.minimized != Some(
            true,
        ),
        truth <==> value == Some(true),
        outcome is Ok <==> code == 0 && present,
        code != 0 ==> outcome == Err::<(), i32>(code),
        code == 0 && !present ==> outcome is Err && outcome->Err_0 == -25212,
{
}

} // verus!
