//! What Cargo tells about the package and its build.
use vstd::prelude::*;

use crate::json::Json;
use crate::json::JsonView;
use crate::json::is_same_or_null;
use crate::json::item_views;
use crate::json::json_document;
use crate::json::lemma_parts;
use crate::json::parse_json;
use crate::json::same_value;
use crate::text::lines;
use crate::text::lines_of;
use crate::text::texts;

verus! {

/// The name of the program.
pub const PRODUCT: &'static str = "MacWindowResizer";

/// A package as Cargo describes it. A package without an ID has null for one.
#[derive(Debug)]
pub struct Package {
    pub version: String,
    pub id: Json,
}

/// The first package of that name.
pub open spec fn named(packages: Seq<JsonView>, name: Seq<char>) -> Option<JsonView>
    decreases packages.len(),
{
    if packages.len() == 0 {
        None
    } else if packages[0].member("name"@).text() == Some(name) {
        Some(packages[0])
    } else {
        named(packages.drop_first(), name)
    }
}

/// The version and the ID of the package of that name, or why there are none.
pub open spec fn described(metadata: JsonView, name: Seq<char>) -> Result<
    (Seq<char>, JsonView),
    Seq<char>,
> {
    match metadata.member("packages"@) {
        JsonView::Array(packages) => match named(packages, name) {
            Some(package) => match package.member("version"@).text() {
                Some(version) => Ok((version, package.member("id"@))),
                None => Err("missing package version"@),
            },
            None => Err("application package not found"@),
        },
        _ => Err("missing packages"@),
    }
}

/// Finds the package of that name in the description of a project.
pub fn find_package(metadata: &Json, name: &str) -> (r: Result<Package, String>)
    ensures
        match r {
            Ok(package) => described(metadata@, name@) == Ok::<(Seq<char>, JsonView), Seq<char>>(
                (package.version@, package.id@),
            ),
            Err(reason) => described(metadata@, name@) == Err::<(Seq<char>, JsonView), Seq<char>>(
                reason@,
            ),
        },
{
    let packages = match metadata.member("packages") {
        Some(Json::Array(packages)) => packages,
        _ => return Err("missing packages".to_owned()),
    };
    let ghost views = item_views(packages@);
    assert(metadata@.member("packages"@) == JsonView::Array(views)) by {
        lemma_parts(Json::Array(*packages));
    }
    let mut i: usize = 0;
    assert(views.skip(0) =~= views);
    while i < packages.len()
        invariant
            i <= packages@.len(),
            views == item_views(packages@),
            metadata@.member("packages"@) == JsonView::Array(views),
            named(views, name@) == named(views.skip(i as int), name@),
        decreases packages@.len() - i,
    {
        let package = &packages[i];
        assert(views.skip(i as int).drop_first() =~= views.skip(i + 1));
        if package.has_text("name", name) {
            return match package.text_of("version") {
                Some(version) => {
                    let id = match package.member("id") {
                        Some(id) => id.clone(),
                        None => Json::Null,
                    };
                    Ok(Package { version: version.to_owned(), id })
                },
                None => Err("missing package version".to_owned()),
            };
        }
        i += 1;
    }
    Err("application package not found".to_owned())
}

/// The version and the ID of the package of that name, given the description of
/// the project, or why there are none.
pub open spec fn described_by(document: Result<JsonView, Seq<char>>, name: Seq<char>) -> Result<
    (Seq<char>, JsonView),
    Seq<char>,
> {
    match document {
        Ok(metadata) => described(metadata, name),
        Err(reason) => Err(reason),
    }
}

/// Finds the package of that name in what `cargo metadata` prints.
pub fn described_package(output: &str, name: &str) -> (r: Result<Package, String>)
    ensures
        match r {
            Ok(package) => described_by(json_document(output@), name@) == Ok::<
                (Seq<char>, JsonView),
                Seq<char>,
            >((package.version@, package.id@)),
            Err(reason) => described_by(json_document(output@), name@) == Err::<
                (Seq<char>, JsonView),
                Seq<char>,
            >(reason@),
        },
{
    match parse_json(output) {
        Ok(metadata) => find_package(&metadata, name),
        Err(reason) => Err(reason),
    }
}

/// The message tells that the program of the package with that ID was built.
pub open spec fn artifact(message: JsonView, id: JsonView) -> bool {
    &&& message.member("reason"@).text() == Some("compiler-artifact"@)
    &&& same_value(message.member("package_id"@), id)
    &&& message.member("target"@).member("name"@).text() == Some(PRODUCT@)
}

/// The executable that the last such message names, if it names one.
pub open spec fn last_executable(messages: Seq<JsonView>, id: JsonView) -> Option<Seq<char>>
    decreases messages.len(),
{
    if messages.len() == 0 {
        None
    } else if artifact(messages.last(), id) {
        messages.last().member("executable"@).text()
    } else {
        last_executable(messages.drop_last(), id)
    }
}

fn is_artifact(message: &Json, id: &Json) -> (r: bool)
    ensures
        r == artifact(message@, id@),
{
    let target = match message.member("target") {
        Some(target) => target.has_text("name", PRODUCT),
        None => false,
    };
    message.has_text("reason", "compiler-artifact") && is_same_or_null(
        message.member("package_id"),
        id,
    ) && target
}

/// Finds the executable in the messages of a build.
pub fn find_executable<'a>(messages: &'a Vec<Json>, id: &Json) -> (r: Option<&'a str>)
    ensures
        match r {
            Some(path) => last_executable(item_views(messages@), id@) == Some(path@),
            None => last_executable(item_views(messages@), id@) is None,
        },
{
    let ghost views = item_views(messages@);
    let mut i: usize = messages.len();
    assert(views.take(i as int) =~= views);
    while i > 0
        invariant
            i <= messages@.len(),
            views == item_views(messages@),
            last_executable(views, id@) == last_executable(
                views.take(i as int),
                id@,
            ),
        decreases i,
    {
        let message = &messages[i - 1];
        assert(views.take(i as int).drop_last() =~= views.take(i - 1));
        assert(views.take(i as int).last() == message@);
        if is_artifact(message, id) {
            return message.text_of("executable");
        }
        i -= 1;
    }
    None
}

/// What a list of texts stands for as JSON, each on its own: the values, or the
/// first reason why a text is no value.
pub open spec fn documents(list: Seq<Seq<char>>) -> Result<Seq<JsonView>, Seq<char>>
    decreases list.len(),
{
    if list.len() == 0 {
        Ok(seq![])
    } else {
        match documents(list.drop_last()) {
            Err(reason) => Err(reason),
            Ok(values) => match json_document(list.last()) {
                Err(reason) => Err(reason),
                Ok(value) => Ok(values.push(value)),
            },
        }
    }
}

proof fn lemma_first_error(list: Seq<Seq<char>>, n: int)
    requires
        0 <= n <= list.len(),
        documents(list.take(n)) is Err,
    ensures
        documents(list) == documents(list.take(n)),
    decreases list.len(),
{
    if n == list.len() {
        assert(list.take(n) =~= list);
    } else {
        assert(list.drop_last().take(n) =~= list.take(n));
        lemma_first_error(list.drop_last(), n);
    }
}

/// Reads the messages of a build, one on each line.
pub fn parse_messages(output: &str) -> (r: Result<Vec<Json>, String>)
    ensures
        match r {
            Ok(messages) => documents(lines_of(output@)) == Ok::<Seq<JsonView>, Seq<char>>(
                item_views(messages@),
            ),
            Err(reason) => documents(lines_of(output@)) == Err::<Seq<JsonView>, Seq<char>>(reason@),
        },
{
    let list = lines(output);
    let ghost all = texts(list@);
    let mut out: Vec<Json> = Vec::new();
    let mut i: usize = 0;
    assert(all.take(0) =~= seq![]);
    assert(item_views(out@) =~= seq![]);
    while i < list.len()
        invariant
            i <= list@.len(),
            all == texts(list@),
            all == lines_of(output@),
            documents(all.take(i as int)) == Ok::<Seq<JsonView>, Seq<char>>(item_views(out@)),
        decreases list@.len() - i,
    {
        let ghost before = out@;
        assert(all.take(i + 1).drop_last() =~= all.take(i as int));
        assert(all.take(i + 1).last() == list@[i as int]@);
        match parse_json(list[i].as_str()) {
            Ok(message) => {
                out.push(message);
                assert(item_views(out@) =~= item_views(before).push(message@));
            },
            Err(reason) => {
                proof {
                    lemma_first_error(all, i + 1);
                }
                return Err(reason);
            },
        }
        i += 1;
    }
    assert(all.take(i as int) =~= all);
    Ok(out)
}

/// The executable that a build reports, given its messages, or why there is none.
pub open spec fn built(messages: Result<Seq<JsonView>, Seq<char>>, id: JsonView) -> Result<
    Seq<char>,
    Seq<char>,
> {
    match messages {
        Err(reason) => Err(reason),
        Ok(messages) => match last_executable(messages, id) {
            Some(path) => Ok(path),
            None => Err("Cargo did not report the application executable"@),
        },
    }
}

/// Finds the executable in what `cargo build` prints.
pub fn built_executable(output: &str, id: &Json) -> (r: Result<String, String>)
    ensures
        match r {
            Ok(path) => built(documents(lines_of(output@)), id@) == Ok::<
                Seq<char>,
                Seq<char>,
            >(path@),
            Err(reason) => built(documents(lines_of(output@)), id@) == Err::<
                Seq<char>,
                Seq<char>,
            >(reason@),
        },
{
    let messages = match parse_messages(output) {
        Ok(messages) => messages,
        Err(reason) => return Err(reason),
    };
    match find_executable(&messages, id) {
        Some(path) => Ok(path.to_owned()),
        None => Err("Cargo did not report the application executable".to_owned()),
    }
}

/// The package of a name is the first that has it as its name.
pub proof fn law_the_first_package_of_a_name(packages: Seq<JsonView>, name: Seq<char>, i: int)
    ensures
        0 <= i < packages.len() && packages[i].member("name"@) == JsonView::Text(name) && (
        forall|j: int|
            0 <= j < i ==> (#[trigger] packages[j]).member("name"@) != JsonView::Text(name))
            ==> named(packages, name) == Some(packages[i]),
        (forall|j: int|
            0 <= j < packages.len() ==> (#[trigger] packages[j]).member("name"@) != JsonView::Text(
                name,
            )) ==> named(packages, name) is None,
    decreases packages.len(),
{
    if packages.len() > 0 && packages[0].member("name"@) != JsonView::Text(name) {
        let rest = packages.drop_first();
        law_the_first_package_of_a_name(rest, name, i - 1);
        if 0 <= i < packages.len() && packages[i].member("name"@) == JsonView::Text(name) && (
        forall|j: int|
            0 <= j < i ==> (#[trigger] packages[j]).member("name"@) != JsonView::Text(name)) {
            assert(rest[i - 1] == packages[i]);
            assert forall|j: int| 0 <= j < i - 1 implies (#[trigger] rest[j]).member("name"@)
                != JsonView::Text(name) by {
                assert(packages[j + 1].member("name"@) != JsonView::Text(name));
            }
        }
        if forall|j: int|
            0 <= j < packages.len() ==> (#[trigger] packages[j]).member("name"@) != JsonView::Text(
                name,
            ) {
            assert forall|j: int| 0 <= j < rest.len() implies (#[trigger] rest[j]).member("name"@)
                != JsonView::Text(name) by {
                assert(packages[j + 1].member("name"@) != JsonView::Text(name));
            }
        }
    } else if packages.len() > 0 && i > 0 {
        assert(packages[0].member("name"@) == JsonView::Text(name));
    }
}

/// A package is described by its own version and ID, if it has the version as a
/// text; each way to lack them has its own reason.
pub proof fn law_descriptions(
    metadata: JsonView,
    packages: Seq<JsonView>,
    package: JsonView,
    name: Seq<char>,
    reason: Seq<char>,
)
    ensures
        !(metadata.member("packages"@) is Array) ==> described(metadata, name) == Err::<
            (Seq<char>, JsonView),
            Seq<char>,
        >("missing packages"@),
        metadata.member("packages"@) == JsonView::Array(packages) ==> {
            &&& named(packages, name) is None ==> described(metadata, name) == Err::<
                (Seq<char>, JsonView),
                Seq<char>,
            >("application package not found"@)
            &&& named(packages, name) == Some(package) && !(package.member(
                "version"@,
            ) is Text) ==> described(metadata, name) == Err::<(Seq<char>, JsonView), Seq<char>>(
                "missing package version"@,
            )
            &&& named(packages, name) == Some(package) ==> (package.member(
                "version"@,
            ) matches JsonView::Text(version) ==> described(metadata, name) == Ok::<
                (Seq<char>, JsonView),
                Seq<char>,
            >((version, package.member("id"@))))
        },
        described_by(Ok(metadata), name) == described(metadata, name),
        described_by(Err(reason), name) == Err::<(Seq<char>, JsonView), Seq<char>>(reason),
{
}

/// A message tells of the program exactly if it is about an artifact, of the package
/// with the ID, and of the target with the program's name.
pub proof fn law_artifacts(message: JsonView, id: JsonView)
    ensures
        artifact(message, id) <==> message.member("reason"@) == JsonView::Text(
            "compiler-artifact"@,
        ) && same_value(message.member("package_id"@), id) && message.member("target"@).member(
            "name"@,
        ) == JsonView::Text("MacWindowResizer"@),
{
}

/// The executable is the one that the last message about the program names; there is
/// none if no message is about the program, or the last of them names none.
pub proof fn law_the_last_message_names_the_executable(
    messages: Seq<JsonView>,
    id: JsonView,
    i: int,
)
    requires
        -1 <= i,
        forall|j: int| i < j < messages.len() ==> !artifact(#[trigger] messages[j], id),
    ensures
        0 <= i < messages.len() && artifact(messages[i], id) ==> last_executable(messages, id)
            == messages[i].member("executable"@).text(),
        i == -1 ==> last_executable(messages, id) is None,
    decreases messages.len(),
{
    if messages.len() > 0 {
        let front = messages.drop_last();
        let last = messages.len() - 1;
        assert(messages[last] == messages.last());
        if i < last {
            assert(!artifact(messages[last], id));
            assert forall|j: int| i < j < front.len() implies !artifact(#[trigger] front[j], id) by {
                assert(front[j] == messages[j]);
            }
            law_the_last_message_names_the_executable(front, id, i);
        }
    }
}

proof fn lemma_documents(list: Seq<Seq<char>>)
    requires
        forall|i: int| 0 <= i < list.len() ==> json_document(#[trigger] list[i]) is Ok,
    ensures
        documents(list) is Ok,
        documents(list)->Ok_0.len() == list.len(),
        forall|i: int|
            0 <= i < list.len() ==> json_document(#[trigger] list[i]) == Ok::<
                JsonView,
                Seq<char>,
            >(documents(list)->Ok_0[i]),
    decreases list.len(),
{
    if list.len() > 0 {
        let front = list.drop_last();
        assert forall|i: int| 0 <= i < front.len() implies json_document(
            #[trigger] front[i],
        ) is Ok by {
            assert(front[i] == list[i]);
        }
        lemma_documents(front);
        assert(json_document(list[list.len() - 1]) is Ok);
        assert forall|i: int| 0 <= i < list.len() implies json_document(#[trigger] list[i]) == Ok::<
            JsonView,
            Seq<char>,
        >(documents(list)->Ok_0[i]) by {
            if i < front.len() {
                assert(front[i] == list[i]);
            }
        }
    }
}

/// Texts are read one by one, in their order; the first that is no value is why they
/// cannot be read.
pub proof fn law_documents(list: Seq<Seq<char>>, i: int)
    requires
        forall|j: int| 0 <= j < i ==> json_document(#[trigger] list[j]) is Ok,
    ensures
        i == list.len() ==> documents(list) is Ok && documents(list)->Ok_0.len() == list.len()
            && forall|j: int|
            0 <= j < list.len() ==> json_document(#[trigger] list[j]) == Ok::<JsonView, Seq<char>>(
                documents(list)->Ok_0[j],
            ),
        0 <= i < list.len() ==> (json_document(list[i]) matches Err(reason) ==> documents(list)
            == Err::<Seq<JsonView>, Seq<char>>(reason)),
{
    if i == list.len() {
        lemma_documents(list);
    } else if 0 <= i < list.len() && json_document(list[i]) is Err {
        let front = list.take(i);
        assert forall|j: int| 0 <= j < front.len() implies json_document(
            #[trigger] front[j],
        ) is Ok by {
            assert(front[j] == list[j]);
        }
        lemma_documents(front);
        assert(list.take(i + 1).drop_last() =~= front);
        lemma_first_error(list, i + 1);
    }
}

/// A build gives the executable that its messages name, and fails if they cannot be
/// read or name none.
pub proof fn law_built_executables(messages: Seq<JsonView>, id: JsonView, reason: Seq<char>)
    ensures
        built(Err(reason), id) == Err::<Seq<char>, Seq<char>>(reason),
        last_executable(messages, id) matches Some(path) ==> built(Ok(messages), id) == Ok::<
            Seq<char>,
            Seq<char>,
        >(path),
        last_executable(messages, id) is None ==> built(Ok(messages), id) == Err::<
            Seq<char>,
            Seq<char>,
        >("Cargo did not report the application executable"@),
{
}

/// What is found in what Cargo prints.
pub proof fn law_functions_on_output(
    output: &str,
    name: &str,
    id: &Json,
    package: Result<Package, String>,
    executable: Result<String, String>,
)
    requires
        call_ensures(described_package, (output, name), package),
        call_ensures(built_executable, (output, id), executable),
    ensures
        package matches Ok(found) ==> json_document(output@) is Ok && described(
            json_document(output@)->Ok_0,
            name@,
        ) == Ok::<(Seq<char>, JsonView), Seq<char>>((found.version@, found.id@)),
        package matches Err(reason) ==> json_document(output@) == Err::<JsonView, Seq<char>>(
            reason@,
        ) || (json_document(output@) is Ok && described(json_document(output@)->Ok_0, name@)
            == Err::<(Seq<char>, JsonView), Seq<char>>(reason@)),
        executable matches Ok(path) ==> documents(lines_of(output@)) is Ok && last_executable(
            documents(lines_of(output@))->Ok_0,
            id@,
        ) == Some(path@),
        executable matches Err(reason) ==> documents(lines_of(output@)) == Err::<
            Seq<JsonView>,
            Seq<char>,
        >(reason@) || (documents(lines_of(output@)) is Ok && last_executable(
            documents(lines_of(output@))->Ok_0,
            id@,
        ) is None && reason@ == "Cargo did not report the application executable"@),
{
}

/// What is found in the description of a project, and in the messages of a build.
pub proof fn law_functions_on_descriptions(
    metadata: &Json,
    name: &str,
    package: Result<Package, String>,
    messages: &Vec<Json>,
    id: &Json,
    executable: Option<&str>,
    output: &str,
    read: Result<Vec<Json>, String>,
)
    requires
        call_ensures(find_package, (metadata, name), package),
        call_ensures(find_executable, (messages, id), executable),
        call_ensures(parse_messages, (output,), read),
    ensures
        package matches Ok(found) ==> described(metadata@, name@) == Ok::<
            (Seq<char>, JsonView),
            Seq<char>,
        >((found.version@, found.id@)),
        package matches Err(reason) ==> described(metadata@, name@) == Err::<
            (Seq<char>, JsonView),
            Seq<char>,
        >(reason@),
        executable is Some <==> last_executable(item_views(messages@), id@) is Some,
        executable matches Some(path) ==> last_executable(item_views(messages@), id@) == Some(
            path@,
        ),
        read matches Ok(values) ==> documents(lines_of(output@)) == Ok::<Seq<JsonView>, Seq<char>>(
            item_views(values@),
        ),
        read matches Err(reason) ==> documents(lines_of(output@)) == Err::<
            Seq<JsonView>,
            Seq<char>,
        >(reason@),
{
}

} // verus!
