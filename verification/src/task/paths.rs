//! Where the program is installed, and under which name it runs.
use vstd::prelude::*;

use crate::text::same;
use crate::text::trim;
use crate::text::trimmed;

verus! {

/// The identifier of the app and of its login service.
pub const LABEL: &'static str = "com.marcell.MacWindowResizer";

/// The places of an installation, for some type of paths, and the domain of the
/// user's services.
#[derive(Debug)]
pub struct Paths<P> {
    pub project: P,
    pub app: P,
    pub agent: P,
    pub logs: P,
    pub domain: String,
}

/// The name of the service in a domain.
pub open spec fn service_name(domain: Seq<char>) -> Seq<char> {
    domain + "/"@ + LABEL@
}

impl<P> Paths<P> {
    /// The name of the login service.
    pub fn service(&self) -> (r: String)
        ensures
            r@ == service_name(self.domain@),
    {
        let mut out = self.domain.clone();
        out.append("/");
        out.append(LABEL);
        out
    }

    /// Makes sure that an installed app may be replaced or removed. The
    /// identifier is what was read of the app, and absent where none is
    /// installed; `shown` is the path of the app as it is shown to the user.
    pub fn validate_app(&self, identifier: Option<&str>, shown: &str) -> (r: Result<(), String>)
        ensures
            match r {
                Ok(_) => identifier matches Some(identifier) ==> trimmed(identifier@) == LABEL@,
                Err(reason) => {
                    &&& identifier matches Some(identifier) && trimmed(identifier@) != LABEL@
                    &&& reason@ == "refusing to replace or remove unrelated app: "@ + shown@
                },
            },
    {
        match identifier {
            Some(identifier) => if same(trim(identifier).as_str(), LABEL) {
                Ok(())
            } else {
                let mut reason = "refusing to replace or remove unrelated app: ".to_owned();
                reason.append(shown);
                Err(reason)
            },
            None => Ok(()),
        }
    }
}

/// Makes sure that the program can be installed here.
pub fn check_host(macos: bool, has_home: bool) -> (r: Result<(), String>)
    ensures
        match r {
            Ok(_) => macos && has_home,
            Err(reason) => {
                ||| !macos && reason@ == "these commands require macOS"@
                ||| macos && !has_home && reason@ == "HOME is not set"@
            },
        },
{
    if !macos {
        Err("these commands require macOS".to_owned())
    } else if !has_home {
        Err("HOME is not set".to_owned())
    } else {
        Ok(())
    }
}

/// The domain of a user's services, given what `id -u` prints.
pub fn domain(user: &str) -> (r: String)
    ensures
        r@ == "gui/"@ + trimmed(user@),
{
    let mut out = "gui/".to_owned();
    out.append(trim(user).as_str());
    out
}

/// The service is told by its domain and by the label of the program.
pub proof fn law_names_of_services(domain: Seq<char>)
    ensures
        service_name(domain) == domain + "/com.marcell.MacWindowResizer"@,
{
    reveal_strlit("/");
    reveal_strlit("com.marcell.MacWindowResizer");
    reveal_strlit("/com.marcell.MacWindowResizer");
    assert(service_name(domain) =~= domain + "/com.marcell.MacWindowResizer"@);
}

/// An app may be replaced or removed exactly if none is installed or it has the label
/// of the program; otherwise the user is told which app is in the way.
pub proof fn law_only_the_own_app_is_touched<P>(
    paths: &Paths<P>,
    identifier: Option<&str>,
    shown: &str,
    r: Result<(), String>,
)
    requires
        call_ensures(Paths::<P>::validate_app, (paths, identifier, shown), r),
    ensures
        r is Ok <==> identifier is None || trimmed(identifier->Some_0@)
            == "com.marcell.MacWindowResizer"@,
        r matches Err(reason) ==> reason@ == "refusing to replace or remove unrelated app: "@
            + shown@,
{
}

/// The tasks need macOS and a home directory; the user's services are told by the
/// number of the user.
pub proof fn law_hosts_and_domains<P>(
    macos: bool,
    has_home: bool,
    r: Result<(), String>,
    user: &str,
    users: String,
    paths: &Paths<P>,
    service: String,
)
    requires
        call_ensures(check_host, (macos, has_home), r),
        call_ensures(domain, (user,), users),
        call_ensures(Paths::<P>::service, (paths,), service),
    ensures
        r is Ok <==> macos && has_home,
        r matches Err(reason) ==> reason@ == if !macos {
            "these commands require macOS"@
        } else {
            "HOME is not set"@
        },
        users@ == "gui/"@ + trimmed(user@),
        service@ == paths.domain@ + "/com.marcell.MacWindowResizer"@,
{
    law_names_of_services(paths.domain@);
}

} // verus!
