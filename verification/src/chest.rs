//! The free-company chest: which chest numbers the `chest` command takes,
//! where the Lodestone shows a chest, how its page lists the items, and the
//! answer that lists them.

use crate::text::{all_digits, decimal, law_decimal_denotes, numeral_value, push_decimal};
use select::predicate::Class;
use vstd::prelude::*;
use vstd::string::*;

verus! {

/// The lowest chest number.
pub const FIRST_CHEST: u64 = 1;

/// The highest chest number.
pub const LAST_CHEST: u64 = 5;

/// One item kept in a chest, with its amount as the page writes it.
pub struct ChestItem {
    pub item: String,
    pub amount: String,
}

pub open spec fn item_view(i: ChestItem) -> (Seq<char>, Seq<char>) {
    (i.item@, i.amount@)
}

/// What the `chest` command does with the chest number it was given.
pub enum ChestStep {
    /// Answer with this text and stop.
    Refuse(String),
    /// Fetch the chest's page and answer with its items.
    FetchItems,
}

/// Decides the `chest` command for `chest_number`: numbers 1 to 5 name a
/// chest, any other number is refused with a hint.
pub fn chest(chest_number: u64) -> (r: ChestStep)
    ensures
        FIRST_CHEST <= chest_number <= LAST_CHEST ==> r is FetchItems,
        !(FIRST_CHEST <= chest_number <= LAST_CHEST) ==> (r matches ChestStep::Refuse(t) && t@
            == "Choose a number between 1 and 5"@),
{
    if !(FIRST_CHEST <= chest_number && chest_number <= LAST_CHEST) {
        ChestStep::Refuse(String::from_str("Choose a number between 1 and 5"))
    } else {
        ChestStep::FetchItems
    }
}

/// The chat line for one item.
pub open spec fn item_line(i: (Seq<char>, Seq<char>)) -> Seq<char> {
    i.0 + ", amount: "@ + i.1 + "\n"@
}

pub open spec fn item_lines(items: Seq<(Seq<char>, Seq<char>)>) -> Seq<char>
    decreases items.len(),
{
    if items.len() == 0 {
        Seq::empty()
    } else {
        item_lines(items.drop_last()) + item_line(items.last())
    }
}

/// The answer to the `chest` command for a chest holding `items`.
pub open spec fn chest_message_text(chest_number: u64, items: Seq<(Seq<char>, Seq<char>)>) -> Seq<
    char,
> {
    "Items in chest "@ + decimal(chest_number as nat) + " are:\n"@ + item_lines(items)
}

/// The answer to the `chest` command names the chest that was asked for,
/// whatever the items: it is `Items in chest `, a numeral without a leading
/// zero that denotes `chest_number`, ` are:` and a line break, then the items'
/// lines.
pub proof fn law_chest_message_names_the_chest(chest_number: u64, items: Seq<(Seq<char>, Seq<char>)>)
    ensures
        exists|numeral: Seq<char>|
            {
                &&& chest_message_text(chest_number, items) == "Items in chest "@ + numeral
                    + " are:\n"@ + item_lines(items)
                &&& numeral.len() >= 1
                &&& all_digits(numeral)
                &&& numeral_value(numeral) == chest_number
                &&& (numeral.len() > 1 ==> numeral[0] != '0')
            },
{
    law_decimal_denotes(chest_number as nat);
    let numeral = decimal(chest_number as nat);
    assert(chest_message_text(chest_number, items) == "Items in chest "@ + numeral + " are:\n"@
        + item_lines(items));
}

/// The answer to the `chest` command: a heading naming the chest, then one line
/// per item with its amount.
pub fn chest_message(chest_number: u64, items: &Vec<ChestItem>) -> (r: String)
    ensures
        r@ == chest_message_text(chest_number, items@.map_values(|i: ChestItem| item_view(i))),
        exists|numeral: Seq<char>|
            {
                &&& r@ == "Items in chest "@ + numeral + " are:\n"@ + item_lines(
                    items@.map_values(|i: ChestItem| item_view(i)),
                )
                &&& all_digits(numeral)
                &&& numeral_value(numeral) == chest_number
            },
{
    let ghost all = items@.map_values(|i: ChestItem| item_view(i));
    let mut message = String::new();
    message.append("Items in chest ");
    push_decimal(&mut message, chest_number);
    message.append(" are:\n");
    let ghost head = message@;
    let mut i: usize = 0;
    assert(all.take(0) =~= Seq::<(Seq<char>, Seq<char>)>::empty());
    while i < items.len()
        invariant
            i <= items.len(),
            all == items@.map_values(|i: ChestItem| item_view(i)),
            head == "Items in chest "@ + decimal(chest_number as nat) + " are:\n"@,
            message@ == head + item_lines(all.take(i as int)),
        decreases items.len() - i,
    {
        assert(all.take(i + 1).drop_last() =~= all.take(i as int));
        assert(all.take(i + 1).last() == item_view(items@[i as int]));
        message.append(items[i].item.as_str());
        message.append(", amount: ");
        message.append(items[i].amount.as_str());
        message.append("\n");
        i = i + 1;
    }
    assert(all.take(items.len() as int) =~= all);
    proof {
        law_chest_message_names_the_chest(chest_number, all);
    }
    message
}

/// The Lodestone page of chest `chest_number` of the free company `fc_number`.
pub open spec fn chest_url_text(fc_number: Seq<char>, chest_number: u64) -> Seq<char> {
    "https://na.finalfantasyxiv.com/lodestone/freecompany/"@ + fc_number + "/chest/"@ + decimal(
        chest_number as nat,
    )
}

/// The address of the Lodestone page that lists chest `chest_number` of the
/// free company with the Lodestone id `fc_number`.
pub fn chest_page_url(fc_number: &str, chest_number: u64) -> (r: String)
    ensures
        r@ == chest_url_text(fc_number@, chest_number),
{
    let mut url = String::from_str("https://na.finalfantasyxiv.com/lodestone/freecompany/");
    url.append(fc_number);
    url.append("/chest/");
    push_decimal(&mut url, chest_number);
    url
}

/// The cookie that carries the Lodestone session `session`.
pub fn session_cookie(session: &str) -> (r: String)
    ensures
        r@ == "ldst_sess="@ + session@,
{
    let mut cookie = String::from_str("ldst_sess=");
    cookie.append(session);
    cookie
}

#[verifier::external_type_specification]
#[verifier::external_body]
pub struct ExDocument(select::document::Document);

/// A parsed HTML page, kept with the text it was parsed from.
pub struct Page {
    html: String,
    doc: select::document::Document,
}

/// Indices, in document order, of the nodes of the page parsed from `html`
/// that select's `Document::find(Class(class))` yields.
pub uninterp spec fn html_nodes_with_class(html: Seq<char>, class: Seq<char>) -> Seq<usize>;

/// Index of the first node that select's `Node::find(Class(class))` yields
/// below node `node` of the page parsed from `html`; `None` where there is none
/// or no such node.
pub uninterp spec fn html_descendant_with_class(html: Seq<char>, node: usize, class: Seq<char>) -> Option<usize>;

/// Index of the first child (select's `Node::first_child`) of node `node` of the
/// page parsed from `html`; `None` where it has none or there is no such node.
pub uninterp spec fn html_first_child(html: Seq<char>, node: usize) -> Option<usize>;

/// The text of node `node` and all below it (select's `Node::text`) in the page
/// parsed from `html`; `None` where there is no such node.
pub uninterp spec fn html_node_text(html: Seq<char>, node: usize) -> Option<Seq<char>>;

impl Page {
    /// The text this page was parsed from.
    pub closed spec fn html(&self) -> Seq<char> {
        self.html@
    }

    /// Calls select's `Document::from(&str)`, which parses the page with
    /// html5ever. Claimed of it: the page keeps the text it was parsed from, so
    /// that what the page is asked afterwards is a function of that text.
    #[verifier::external_body]
    fn parse(html: String) -> (p: Page)
        ensures
            p.html() == html@,
    {
        Page { doc: select::document::Document::from(html.as_str()), html }
    }

    /// Calls select's `Document::find` with the `Class` predicate and reads the
    /// index of each node found. Claimed of it: the indices are the named
    /// result for the page's text and the class.
    #[verifier::external_body]
    fn nodes_with_class(&self, class: &str) -> (r: Vec<usize>)
        ensures
            r@ == html_nodes_with_class(self.html(), class@),
    {
        self.doc.find(Class(class)).map(|n| n.index()).collect()
    }

    /// Calls select's `Node::find` with the `Class` predicate on node `node`
    /// and reads the index of the first node found. Claimed of it: the result is
    /// the named result for the page's text, the node and the class.
    #[verifier::external_body]
    fn descendant_with_class(&self, node: usize, class: &str) -> (r: Option<usize>)
        ensures
            r == html_descendant_with_class(self.html(), node, class@),
    {
        match self.doc.nth(node) {
            Some(n) => match n.find(Class(class)).next() {
                Some(d) => Some(d.index()),
                None => None,
            },
            None => None,
        }
    }

    /// Calls select's `Node::first_child` on node `node` and reads its index.
    /// Claimed of it: the result is the named result for the page's text and the
    /// node, and a child found is a node of the page (select looks children up
    /// in the page's node list and unwraps the look-up), so it has a text.
    #[verifier::external_body]
    fn first_child(&self, node: usize) -> (r: Option<usize>)
        ensures
            r == html_first_child(self.html(), node),
            r matches Some(c) ==> html_node_text(self.html(), c) is Some,
    {
        match self.doc.nth(node) {
            Some(n) => match n.first_child() {
                Some(c) => Some(c.index()),
                None => None,
            },
            None => None,
        }
    }

    /// Calls select's `Node::text` on node `node`. Claimed of it: the result is
    /// the named result for the page's text and the node.
    #[verifier::external_body]
    fn node_text(&self, node: usize) -> (r: Option<String>)
        ensures
            match r {
                Some(t) => html_node_text(self.html(), node) == Some(t@),
                None => html_node_text(self.html(), node) is None,
            },
    {
        match self.doc.nth(node) {
            Some(n) => Some(n.text()),
            None => None,
        }
    }
}

/// Why the chest page could not be read.
pub enum ChestPageError {
    /// An item of the list lacks its name or its amount element.
    MissingElement,
    /// A name or amount element has no child to take the text from.
    MissingChild,
}

/// The class of each item of the chest list.
pub open spec fn item_list_class() -> Seq<char> {
    "item-list__list"@
}

/// The class of an item's name element.
pub open spec fn item_name_class() -> Seq<char> {
    "db-tooltip__item__name"@
}

/// The class of an item's amount element.
pub open spec fn item_number_class() -> Seq<char> {
    "item-list__number"@
}

/// The text of the first child of the first element of class `class` below
/// node `node`.
pub open spec fn field_text(html: Seq<char>, node: usize, class: Seq<char>) -> Result<
    Seq<char>,
    ChestPageError,
> {
    match html_descendant_with_class(html, node, class) {
        None => Err(ChestPageError::MissingElement),
        Some(d) => match html_first_child(html, d) {
            None => Err(ChestPageError::MissingChild),
            Some(c) => Ok(html_node_text(html, c).unwrap()),
        },
    }
}

/// The items of the list nodes `nodes`, in order, or the first failure (an
/// item's name before its amount).
pub open spec fn items_of(html: Seq<char>, nodes: Seq<usize>) -> Result<
    Seq<(Seq<char>, Seq<char>)>,
    ChestPageError,
>
    decreases nodes.len(),
{
    if nodes.len() == 0 {
        Ok(Seq::empty())
    } else {
        match field_text(html, nodes[0], item_name_class()) {
            Err(e) => Err(e),
            Ok(name) => match field_text(html, nodes[0], item_number_class()) {
                Err(e) => Err(e),
                Ok(amount) => match items_of(html, nodes.drop_first()) {
                    Err(e) => Err(e),
                    Ok(rest) => Ok(seq![(name, amount)] + rest),
                },
            },
        }
    }
}

/// The items listed on a chest page.
pub open spec fn chest_items_of(html: Seq<char>) -> Result<Seq<(Seq<char>, Seq<char>)>, ChestPageError> {
    items_of(html, html_nodes_with_class(html, item_list_class()))
}

fn field(page: &Page, node: usize, class: &str) -> (r: Result<String, ChestPageError>)
    ensures
        match r {
            Ok(t) => field_text(page.html(), node, class@) == Ok::<Seq<char>, ChestPageError>(t@),
            Err(e) => field_text(page.html(), node, class@) == Err::<Seq<char>, ChestPageError>(e),
        },
{
    match page.descendant_with_class(node, class) {
        None => Err(ChestPageError::MissingElement),
        Some(d) => match page.first_child(d) {
            None => Err(ChestPageError::MissingChild),
            Some(c) => match page.node_text(c) {
                Some(t) => Ok(t),
                None => Err(ChestPageError::MissingChild),
            },
        },
    }
}

/// Later failures do not hide an earlier one, and items found before a failure
/// do not count: the result for `nodes` is the first item's result joined with
/// that of the rest.
proof fn lemma_items_of_split(html: Seq<char>, nodes: Seq<usize>, i: int)
    requires
        0 <= i <= nodes.len(),
        items_of(html, nodes.take(i)) is Ok,
    ensures
        items_of(html, nodes) == match items_of(html, nodes.skip(i)) {
            Err(e) => Err(e),
            Ok(rest) => Ok::<Seq<(Seq<char>, Seq<char>)>, ChestPageError>(
                items_of(html, nodes.take(i))->Ok_0 + rest,
            ),
        },
    decreases i,
{
    if i == 0 {
        assert(nodes.skip(0) =~= nodes);
        assert(items_of(html, nodes.take(0))->Ok_0 =~= Seq::<(Seq<char>, Seq<char>)>::empty());
        match items_of(html, nodes) {
            Err(e) => {},
            Ok(rest) => {
                assert(Seq::<(Seq<char>, Seq<char>)>::empty() + rest =~= rest);
            },
        }
    } else {
        let tail = nodes.drop_first();
        assert(nodes.take(i).drop_first() =~= tail.take(i - 1));
        assert(nodes.take(i)[0] == nodes[0]);
        assert(tail.skip(i - 1) =~= nodes.skip(i));
        lemma_items_of_split(html, tail, i - 1);
        match items_of(html, nodes.skip(i)) {
            Err(e) => {},
            Ok(rest) => {
                let name = field_text(html, nodes[0], item_name_class())->Ok_0;
                let amount = field_text(html, nodes[0], item_number_class())->Ok_0;
                let mid = items_of(html, tail.take(i - 1))->Ok_0;
                assert(seq![(name, amount)] + (mid + rest) =~= (seq![(name, amount)] + mid) + rest);
            },
        }
    }
}

/// Parses a Lodestone chest page and reads its items: for each element of class
/// `item-list__list`, in page order, the text of the first child of its first
/// element of class `db-tooltip__item__name` and of its first element of class
/// `item-list__number`. The first item lacking either is reported instead.
pub fn get_items(html: String) -> (r: Result<Vec<ChestItem>, ChestPageError>)
    ensures
        match r {
            Ok(items) => chest_items_of(html@) == Ok::<
                Seq<(Seq<char>, Seq<char>)>,
                ChestPageError,
            >(items@.map_values(|i: ChestItem| item_view(i))),
            Err(e) => chest_items_of(html@) == Err::<Seq<(Seq<char>, Seq<char>)>, ChestPageError>(
                e,
            ),
        },
{
    let page = Page::parse(html);
    let page = &page;
    let nodes = page.nodes_with_class("item-list__list");
    let ghost text = page.html();
    let mut items: Vec<ChestItem> = Vec::new();
    let mut i: usize = 0;
    assert(nodes@.take(0) =~= Seq::<usize>::empty());
    assert(items@.map_values(|i: ChestItem| item_view(i)) =~= Seq::<(Seq<char>, Seq<char>)>::empty());
    while i < nodes.len()
        invariant
            i <= nodes.len(),
            items.len() == i,
            text == page.html(),
            text == html@,
            nodes@ == html_nodes_with_class(text, item_list_class()),
            items_of(text, nodes@.take(i as int)) == Ok::<
                Seq<(Seq<char>, Seq<char>)>,
                ChestPageError,
            >(items@.map_values(|i: ChestItem| item_view(i))),
        decreases nodes.len() - i,
    {
        let node = nodes[i];
        proof {
            lemma_items_of_split(text, nodes@, i as int);
            assert(nodes@.skip(i as int)[0] == node);
        }
        let name = match field(page, node, "db-tooltip__item__name") {
            Ok(t) => t,
            Err(e) => {
                return Err(e);
            },
        };
        let amount = match field(page, node, "item-list__number") {
            Ok(t) => t,
            Err(e) => {
                return Err(e);
            },
        };
        let ghost before = items@.map_values(|i: ChestItem| item_view(i));
        let ghost found = (name@, amount@);
        items.push(ChestItem { item: name, amount });
        proof {
            let pre = nodes@.take(i as int);
            let next = nodes@.take(i + 1);
            assert(next.take(i as int) =~= pre);
            assert(next.skip(i as int) =~= seq![node]);
            assert(seq![node].drop_first() =~= Seq::<usize>::empty());
            assert(items_of(text, Seq::<usize>::empty()) == Ok::<
                Seq<(Seq<char>, Seq<char>)>,
                ChestPageError,
            >(Seq::empty()));
            assert(seq![found] + Seq::<(Seq<char>, Seq<char>)>::empty() =~= seq![found]);
            assert(items_of(text, seq![node]) == Ok::<
                Seq<(Seq<char>, Seq<char>)>,
                ChestPageError,
            >(seq![found]));
            lemma_items_of_split(text, next, i as int);
            assert(items@.map_values(|i: ChestItem| item_view(i)) =~= before + seq![
                item_view(items@[i as int]),
            ]);
        }
        i = i + 1;
    }
    assert(nodes@.take(nodes.len() as int) =~= nodes@);
    Ok(items)
}

} // verus!
