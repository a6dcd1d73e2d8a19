//! TOML documents, as far as a configuration reads them.
use vstd::prelude::*;

verus! {

/// What a configuration reads of a TOML value: its entries where it is a
/// table, and the number it stands for or why it stands for none.
#[verifier::ext_equal]
pub ghost struct NodeView {
    pub entries: Option<Seq<(Seq<char>, NodeView)>>,
    pub number: Result<u64, Seq<char>>,
}

/// A TOML value. Numbers are kept as IEEE 754 binary64 bit patterns.
#[derive(Debug)]
pub struct Node {
    /// The entries of a table, in the order in which the table holds them;
    /// `None` for any other value.
    pub entries: Option<Vec<(String, Node)>>,
    /// The value read as a floating-point number, or why it cannot be read
    /// as one.
    pub number: Result<u64, String>,
}

/// The keys and values of a table.
pub open spec fn entry_views(entries: Seq<(String, Node)>) -> Seq<(Seq<char>, NodeView)> {
    Seq::new(entries.len(), |i: int| (entries[i].0@, entries[i].1@))
}

impl Node {
    /// The mathematical value of the node.
    pub open spec fn view(self) -> NodeView
        decreases self,
    {
        NodeView {
            entries: match self.entries {
                Some(list) => Some(
                    Seq::new(
                        list@.len(),
                        |i: int|
                            if 0 <= i < list@.len() {
                                (list@[i].0@, list@[i].1.view())
                            } else {
                                arbitrary()
                            },
                    ),
                ),
                None => None,
            },
            number: match self.number {
                Ok(bits) => Ok(bits),
                Err(reason) => Err(reason@),
            },
        }
    }
}

/// The entries of a node's view are the views of its entries.
pub proof fn lemma_node_entries(node: Node)
    requires
        node.entries is Some,
    ensures
        node@.entries == Some(entry_views(node.entries->Some_0@)),
{
    assert(node@.entries->Some_0 =~= entry_views(node.entries->Some_0@));
}

#[verifier::external_type_specification]
#[verifier::external_body]
pub struct ExTomlValue(toml::Value);

/// What a value of the `toml` crate holds.
pub uninterp spec fn toml_node(value: toml::Value) -> NodeView;

/// The document that `toml::from_str` reads from a text, or the message of its
/// error.
pub uninterp spec fn toml_document(source: Seq<char>) -> Result<NodeView, Seq<char>>;

/// `toml::from_str` reads a document, which is a table, or gives an error. Which
/// of the two, and what they hold, depends on the text alone.
#[verifier::external_body]
fn read_document(source: &str) -> (r: Result<toml::Value, String>)
    ensures
        match r {
            Ok(value) => toml_document(source@) == Ok::<NodeView, Seq<char>>(toml_node(value))
                && toml_node(value).entries is Some,
            Err(reason) => toml_document(source@) == Err::<NodeView, Seq<char>>(reason@),
        },
{
    match toml::from_str::<toml::Table>(source) {
        Ok(table) => Ok(toml::Value::Table(table)),
        Err(error) => Err(error.to_string()),
    }
}

/// `toml::map::Map::into_iter` hands out the entries of a table, in their
/// order; a value that is no table has none.
#[verifier::external_body]
fn take_entries(value: toml::Value) -> (r: Option<Vec<(String, toml::Value)>>)
    ensures
        match (r, toml_node(value).entries) {
            (Some(list), Some(entries)) => {
                &&& list@.len() == entries.len()
                &&& forall|i: int|
                    #![trigger list@[i]]
                    0 <= i < entries.len() ==> entries[i] == (list@[i].0@, toml_node(list@[i].1))
            },
            (None, None) => true,
            _ => false,
        },
{
    match value {
        toml::Value::Table(table) => Some(table.into_iter().collect()),
        _ => None,
    }
}

/// `toml::Value::try_into` reads a value as a floating-point number, or gives
/// an error, whose message is kept. An integer is read as the nearest
/// floating-point number. Which integer gives which bits is left unsaid.
#[verifier::external_body]
fn read_number(value: &toml::Value) -> (r: Result<u64, String>)
    ensures
        match r {
            Ok(bits) => toml_node(*value).number == Ok::<u64, Seq<char>>(bits),
            Err(reason) => toml_node(*value).number == Err::<u64, Seq<char>>(reason@),
        },
{
    match value.clone().try_into() {
        Ok(number) => {
            // Says that the number is a floating-point one.
            let _ = toml::Value::Float(number);
            Ok(number.to_bits())
        },
        Err(error) => Err(error.message().to_string()),
    }
}

fn to_node(value: toml::Value) -> (r: Node)
    ensures
        r@ == toml_node(value),
    decreases toml_node(value),
{
    let ghost whole = toml_node(value);
    let number = read_number(&value);
    let entries = match take_entries(value) {
        None => None,
        Some(list) => {
            let ghost entries = whole.entries->Some_0;
            let mut out: Vec<(String, Node)> = Vec::new();
            for item in it: list
                invariant
                    whole == toml_node(value),
                    whole.entries == Some(entries),
                    it.seq() == list@,
                    list@.len() == entries.len(),
                    forall|i: int|
                        #![trigger list@[i]]
                        0 <= i < entries.len() ==> entries[i] == (
                            list@[i].0@,
                            toml_node(list@[i].1),
                        ),
                    out@.len() == it.index(),
                    forall|i: int|
                        #![trigger out@[i]]
                        0 <= i < out@.len() ==> entries[i] == (out@[i].0@, out@[i].1@),
            {
                let ghost k = it.index() as int;
                assert(item == list@[k]);
                assert(decreases_to!(whole => whole.entries));
                assert(decreases_to!(whole.entries => whole.entries->Some_0));
                assert(decreases_to!(entries => entries[k]));
                assert(decreases_to!(entries[k] => entries[k].1));
                let (key, child) = item;
                out.push((key, to_node(child)));
            }
            Some(out)
        },
    };
    let node = Node { entries, number };
    proof {
        if node.entries is Some {
            lemma_node_entries(node);
            assert(entry_views(node.entries->Some_0@) =~= whole.entries->Some_0);
        }
        assert(node@ =~= whole);
    }
    node
}

/// Reads a TOML document into its entries.
pub fn parse_document(source: &str) -> (r: Result<Vec<(String, Node)>, String>)
    ensures
        match r {
            Ok(list) => toml_document(source@) matches Ok(node) && node.entries == Some(
                entry_views(list@),
            ),
            Err(reason) => toml_document(source@) == Err::<NodeView, Seq<char>>(reason@),
        },
{
    match read_document(source) {
        Ok(value) => {
            let node = to_node(value);
            let list = match node.entries {
                Some(list) => {
                    proof {
                        lemma_node_entries(node);
                    }
                    list
                },
                None => Vec::new(),
            };
            Ok(list)
        },
        Err(reason) => Err(reason),
    }
}

/// A node is worth its own number and its own entries, in their order.
pub proof fn law_values_of_nodes(node: Node, i: int)
    ensures
        node.number matches Ok(bits) ==> node@.number == Ok::<u64, Seq<char>>(bits),
        node.number matches Err(reason) ==> node@.number == Err::<u64, Seq<char>>(reason@),
        node.entries is None <==> node@.entries is None,
        node.entries matches Some(entries) ==> {
            &&& node@.entries == Some(entry_views(entries@))
            &&& entry_views(entries@).len() == entries@.len()
            &&& 0 <= i < entries@.len() ==> entry_views(entries@)[i] == (
                entries@[i].0@,
                entries@[i].1@,
            )
        },
{
    if node.entries is Some {
        lemma_node_entries(node);
    }
}

/// A text is read as the entries of the document that it holds.
pub proof fn law_documents_that_are_read(
    source: &str,
    r: Result<Vec<(String, Node)>, String>,
    i: int,
)
    requires
        call_ensures(parse_document, (source,), r),
    ensures
        r is Ok <==> toml_document(source@) is Ok,
        r matches Err(reason) ==> toml_document(source@) == Err::<NodeView, Seq<char>>(reason@),
        r matches Ok(list) ==> toml_document(source@)->Ok_0.entries is Some && toml_document(
            source@,
        )->Ok_0.entries->Some_0.len() == list@.len(),
        r matches Ok(list) ==> (0 <= i < list@.len() ==> toml_document(
            source@,
        )->Ok_0.entries->Some_0[i] == (list@[i].0@, list@[i].1@)),
{
}

} // verus!
