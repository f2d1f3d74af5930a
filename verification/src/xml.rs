//! A parsed XML document held as plain values, and the lookups the song reader makes on it.
use vstd::prelude::*;
use vstd::string::*;

use crate::error::Error;
use crate::options::{all_decimal, digits_value};

verus! {

/// One node of a parsed XML document, in document order: the position of its parent among the
/// nodes, whether it is an element, its tag name (empty for other nodes), its attributes in
/// order, and its text (for an element, the text of its first child when that child is text).
pub struct XmlNode {
    pub parent: Option<usize>,
    pub is_element: bool,
    pub name: String,
    pub attributes: Vec<(String, String)>,
    pub text: Option<String>,
}

/// The nodes `roxmltree` parses `text` into, in document order, each parent given by its
/// position (`None` when `text` is not well-formed XML).
pub uninterp spec fn xml_nodes(text: Seq<char>) -> Option<Seq<XmlNode>>;

/// `roxmltree::Document::parse`, with the document's nodes (`Document::descendants`, which walks
/// them in document order) copied out as plain values. Claimed: the result is `Ok` exactly when
/// the parser accepts `text`, and its nodes are then [`xml_nodes`] of `text`; a refusal is an
/// `Xml` error carrying the parser's message, which is left unsaid.
#[verifier::external_body]
pub(crate) fn parse_xml(text: &str) -> (r: Result<Vec<XmlNode>, Error>)
    ensures
        r is Ok <==> xml_nodes(text@) is Some,
        r matches Ok(nodes) ==> xml_nodes(text@) == Some(nodes@),
        r matches Err(e) ==> e is Xml,
{
    match roxmltree::Document::parse(text) {
        Ok(doc) => Ok(doc.descendants().map(|n| XmlNode {
            parent: n.parent().map(|p| p.id().get_usize()),
            is_element: n.is_element(),
            name: n.tag_name().name().to_string(),
            attributes: n.attributes().map(|a| (a.name().to_string(), a.value().to_string())).collect(),
            text: n.text().map(|t| t.to_string()),
        }).collect()),
        Err(e) => Err(Error::Xml(e.to_string())),
    }
}

/// The element children of the node at position `p` among the first `n` nodes, in order.
pub open spec fn kids_upto(nodes: Seq<XmlNode>, p: int, n: int) -> Seq<usize>
    decreases n,
{
    if n <= 0 {
        Seq::empty()
    } else {
        let k = kids_upto(nodes, p, n - 1);
        if nodes[n - 1].is_element && nodes[n - 1].parent == Some(p as usize) { k.push((n - 1) as usize) } else { k }
    }
}

/// The element children of the node at position `p`, in document order.
pub open spec fn children(nodes: Seq<XmlNode>, p: int) -> Seq<usize> {
    kids_upto(nodes, p, nodes.len() as int)
}

/// The first element of the document (its root element), if any.
pub open spec fn first_element(nodes: Seq<XmlNode>, n: int) -> Option<usize>
    decreases n,
{
    if n <= 0 {
        None
    } else {
        match first_element(nodes, n - 1) {
            Some(e) => Some(e),
            None => if nodes[n - 1].is_element { Some((n - 1) as usize) } else { None },
        }
    }
}

/// The nodes of `ks` whose tag name is `name`, in order.
pub open spec fn named(nodes: Seq<XmlNode>, ks: Seq<usize>, name: Seq<char>) -> Seq<usize>
    decreases ks.len(),
{
    if ks.len() == 0 {
        Seq::empty()
    } else {
        let k = named(nodes, ks.drop_last(), name);
        if nodes[ks.last() as int].name@ == name { k.push(ks.last()) } else { k }
    }
}

/// The first element child of `p` named `name`.
pub open spec fn child(nodes: Seq<XmlNode>, p: int, name: Seq<char>) -> Option<usize> {
    let ks = named(nodes, children(nodes, p), name);
    if ks.len() > 0 { Some(ks[0]) } else { None }
}

/// The element children of `p` named `name`.
pub open spec fn children_named(nodes: Seq<XmlNode>, p: int, name: Seq<char>) -> Seq<usize> {
    named(nodes, children(nodes, p), name)
}

/// The first element child named `name` of the node `p` names, if there is one.
pub open spec fn child_of(nodes: Seq<XmlNode>, p: Option<usize>, name: Seq<char>) -> Option<usize> {
    match p {
        Some(q) => child(nodes, q as int, name),
        None => None,
    }
}

/// XML white space: space, tab, line feed and carriage return.
pub open spec fn xml_space(c: char) -> bool {
    c == ' ' || c == '\t' || c == '\n' || c == '\r'
}

/// `s` without leading and trailing XML white space.
pub open spec fn xml_trim(s: Seq<char>) -> Seq<char>
    decreases s.len(),
{
    if s.len() > 0 && xml_space(s[0]) {
        xml_trim(s.drop_first())
    } else if s.len() > 0 && xml_space(s.last()) {
        xml_trim(s.drop_last())
    } else {
        s
    }
}

/// The trimmed text of the node at position `k`, when it has text that is not all white space.
pub open spec fn node_text(nodes: Seq<XmlNode>, k: int) -> Option<Seq<char>> {
    match nodes[k].text {
        Some(t) => if xml_trim(t@).len() > 0 { Some(xml_trim(t@)) } else { None },
        None => None,
    }
}

/// The trimmed text of the first child of `p` named `name` (see [`node_text`]).
pub open spec fn child_text(nodes: Seq<XmlNode>, p: Option<usize>, name: Seq<char>) -> Option<Seq<char>> {
    match child_of(nodes, p, name) {
        Some(c) => node_text(nodes, c as int),
        None => None,
    }
}

/// A decimal integer: an optional sign, then one or more decimal digits; `None` for anything
/// else, and for magnitudes of `2^64` or more.
pub open spec fn parse_int_spec(s: Seq<char>) -> Option<int> {
    let neg = s.len() > 0 && s[0] == '-';
    let digits = if s.len() > 0 && (s[0] == '-' || s[0] == '+') { s.drop_first() } else { s };
    if digits.len() > 0 && all_decimal(digits) && digits_value(digits) < 0x1_0000_0000_0000_0000 {
        Some(if neg { -digits_value(digits) } else { digits_value(digits) })
    } else {
        None
    }
}

/// The integer text of the first child `name` of `p`, when it lies in `lo..=hi`.
pub open spec fn child_int(nodes: Seq<XmlNode>, p: Option<usize>, name: Seq<char>, lo: int, hi: int) -> Option<int> {
    match child_text(nodes, p, name) {
        Some(t) => match parse_int_spec(t) {
            Some(v) => if lo <= v <= hi { Some(v) } else { None },
            None => None,
        },
        None => None,
    }
}

/// `o`'s value, else `d`.
pub open spec fn or_default(o: Option<int>, d: int) -> int {
    match o {
        Some(v) => v,
        None => d,
    }
}

/// A child `name` of `p` whose text is `true` or `1`.
pub open spec fn child_flag(nodes: Seq<XmlNode>, p: Option<usize>, name: Seq<char>) -> bool {
    child_text(nodes, p, name) == Some("true"@) || child_text(nodes, p, name) == Some("1"@)
}

/// The value of the first attribute named `name` among `attrs`.
pub open spec fn attribute_value(attrs: Seq<(String, String)>, name: Seq<char>) -> Option<Seq<char>>
    decreases attrs.len(),
{
    if attrs.len() == 0 {
        None
    } else if attrs[0].0@ == name {
        Some(attrs[0].1@)
    } else {
        attribute_value(attrs.drop_first(), name)
    }
}

/// Characters equal one for one.
pub fn str_eq(a: &str, b: &str) -> (r: bool)
    ensures
        r == (a@ == b@),
{
    let n = a.unicode_len();
    if n != b.unicode_len() {
        return false;
    }
    let mut i: usize = 0;
    while i < n
        invariant
            i <= n,
            n == a@.len(),
            n == b@.len(),
            forall|k: int| 0 <= k < i ==> a@[k] == b@[k],
        decreases n - i,
    {
        if a.get_char(i) != b.get_char(i) {
            return false;
        }
        i += 1;
    }
    assert(a@ =~= b@);
    true
}

fn space_at(s: &str, i: usize) -> (r: bool)
    requires
        i < s@.len(),
    ensures
        r == xml_space(s@[i as int]),
{
    let c = s.get_char(i);
    c == ' ' || c == '\t' || c == '\n' || c == '\r'
}

/// `s` without leading and trailing XML white space.
pub fn trim_xml(s: &str) -> (r: String)
    ensures
        r@ == xml_trim(s@),
{
    let n = s.unicode_len();
    let mut i: usize = 0;
    assert(s@.subrange(0, n as int) =~= s@);
    while i < n && space_at(s, i)
        invariant
            i <= n,
            n == s@.len(),
            xml_trim(s@.subrange(i as int, n as int)) == xml_trim(s@),
        decreases n - i,
    {
        proof {
            assert(s@.subrange(i as int, n as int).drop_first() =~= s@.subrange(i + 1, n as int));
        }
        i += 1;
    }
    let mut j: usize = n;
    while j > i && space_at(s, j - 1)
        invariant
            i <= j <= n,
            n == s@.len(),
            i < n ==> !xml_space(s@[i as int]),
            i < j || i == n,
            xml_trim(s@.subrange(i as int, j as int)) == xml_trim(s@),
        decreases j - i,
    {
        proof {
            let sub = s@.subrange(i as int, j as int);
            assert(sub.drop_last() =~= s@.subrange(i as int, j - 1));
            if j - 1 == i {
                assert(!xml_space(s@[i as int]));
            }
            assert(!xml_space(sub[0]));
        }
        j -= 1;
    }
    proof {
        let sub = s@.subrange(i as int, j as int);
        if sub.len() > 0 {
            assert(sub[0] == s@[i as int]);
        }
    }
    s.substring_char(i, j).to_owned()
}

/// Reads a decimal integer (see [`parse_int_spec`]).
pub fn parse_int(s: &str) -> (r: Option<i128>)
    ensures
        r matches Some(v) ==> parse_int_spec(s@) == Some(v as int),
        r is None ==> parse_int_spec(s@) is None,
{
    let n = s.unicode_len();
    let neg = n > 0 && s.get_char(0) == '-';
    let start: usize = if n > 0 && (s.get_char(0) == '-' || s.get_char(0) == '+') { 1 } else { 0 };
    let ghost digits = if s@.len() > 0 && (s@[0] == '-' || s@[0] == '+') { s@.drop_first() } else { s@ };
    assert(digits =~= s@.subrange(start as int, n as int));
    if start >= n {
        return None;
    }
    let mut value: u128 = 0;
    let mut i: usize = start;
    while i < n
        invariant
            start <= i <= n,
            n == s@.len(),
            digits == s@.subrange(start as int, n as int),
            digits == (if s@.len() > 0 && (s@[0] == '-' || s@[0] == '+') { s@.drop_first() } else { s@ }),
            forall|k: int| start <= k < i ==> '0' <= #[trigger] s@[k] && s@[k] <= '9',
            value == digits_value(s@.subrange(start as int, i as int)),
            value < 0x1_0000_0000_0000_0000,
        decreases n - i,
    {
        let c = s.get_char(i);
        proof {
            assert(s@.subrange(start as int, i + 1).drop_last() =~= s@.subrange(start as int, i as int));
        }
        if !('0' <= c && c <= '9') {
            proof {
                assert(digits[i - start] == c);
                assert(!all_decimal(digits));
            }
            return None;
        }
        value = 10 * value + (c as u32 - '0' as u32) as u128;
        if value >= 0x1_0000_0000_0000_0000 {
            proof {
                let sub = s@.subrange(start as int, i + 1);
                assert(sub.last() == c);
                assert(digits_value(sub) == value);
                if all_decimal(digits) {
                    crate::options::lemma_digits_value_prefix_bound(digits, i + 1 - start);
                    assert(digits.take(i + 1 - start) =~= sub);
                }
            }
            return None;
        }
        i += 1;
    }
    proof {
        assert(s@.subrange(start as int, i as int) =~= digits);
    }
    let v = value as i128;
    if neg { Some(-v) } else { Some(v) }
}

/// The first attribute value of `attrs` named `name`.
pub fn find_attribute(attrs: &Vec<(String, String)>, name: &str) -> (r: Option<String>)
    ensures
        r matches Some(v) ==> attribute_value(attrs@, name@) == Some(v@),
        r is None ==> attribute_value(attrs@, name@) is None,
{
    let mut i: usize = 0;
    assert(attrs@.subrange(0, attrs@.len() as int) =~= attrs@);
    while i < attrs.len()
        invariant
            i <= attrs@.len(),
            attribute_value(attrs@.subrange(i as int, attrs@.len() as int), name@) == attribute_value(attrs@, name@),
        decreases attrs@.len() - i,
    {
        let ghost rest = attrs@.subrange(i as int, attrs@.len() as int);
        assert(rest.drop_first() =~= attrs@.subrange(i + 1, attrs@.len() as int));
        if str_eq(attrs[i].0.as_str(), name) {
            return Some(attrs[i].1.clone());
        }
        i += 1;
    }
    None
}

/// A parsed document with the element children of every node listed.
pub struct XmlDoc {
    pub nodes: Vec<XmlNode>,
    pub kids: Vec<Vec<usize>>,
}

impl XmlDoc {
    /// The child lists agree with the nodes.
    pub open spec fn wf(&self) -> bool {
        &&& self.kids@.len() == self.nodes@.len()
        &&& forall|p: int| 0 <= p < self.nodes@.len() ==> #[trigger] self.kids@[p]@ == children(self.nodes@, p)
    }

    /// Indexes the element children of every node of `nodes`.
    pub fn new(nodes: Vec<XmlNode>) -> (r: XmlDoc)
        ensures
            r.wf(),
            r.nodes@ == nodes@,
    {
        let n = nodes.len();
        let mut kids: Vec<Vec<usize>> = Vec::new();
        let mut i: usize = 0;
        while i < n
            invariant
                i <= n,
                kids@.len() == i,
                forall|p: int| 0 <= p < i ==> #[trigger] kids@[p]@ == Seq::<usize>::empty(),
            decreases n - i,
        {
            kids.push(Vec::new());
            i += 1;
        }
        let mut j: usize = 0;
        while j < n
            invariant
                j <= n,
                n == nodes@.len(),
                kids@.len() == n,
                forall|p: int| 0 <= p < n ==> #[trigger] kids@[p]@ == kids_upto(nodes@, p, j as int),
            decreases n - j,
        {
            if nodes[j].is_element {
                if let Some(p) = nodes[j].parent {
                    if p < n {
                        let ghost before = kids@;
                        kids[p].push(j);
                        proof {
                            assert forall|q: int| 0 <= q < n implies #[trigger] kids@[q]@ == kids_upto(nodes@, q, j + 1) by {
                                if q != p {
                                    assert(kids@[q] == before[q]);
                                }
                            }
                        }
                    }
                }
            }
            j += 1;
        }
        XmlDoc { nodes, kids }
    }

    /// The element children of `p` named `name`.
    pub fn named_children(&self, p: usize, name: &str) -> (r: Vec<usize>)
        requires
            self.wf(),
            p < self.nodes@.len(),
        ensures
            r@ == children_named(self.nodes@, p as int, name@),
            forall|k: int| 0 <= k < r@.len() ==> #[trigger] r@[k] < self.nodes@.len(),
    {
        let ks = &self.kids[p];
        let mut out: Vec<usize> = Vec::new();
        let mut i: usize = 0;
        while i < ks.len()
            invariant
                self.wf(),
                p < self.nodes@.len(),
                *ks == self.kids@[p as int],
                i <= ks@.len(),
                out@ == named(self.nodes@, ks@.take(i as int), name@),
                forall|k: int| 0 <= k < out@.len() ==> #[trigger] out@[k] < self.nodes@.len(),
            decreases ks@.len() - i,
        {
            proof {
                assert(ks@.take(i + 1).drop_last() =~= ks@.take(i as int));
                lemma_kids_bound(self.nodes@, p as int, self.nodes@.len() as int, i as int);
            }
            let k = ks[i];
            if str_eq(self.nodes[k].name.as_str(), name) {
                out.push(k);
            }
            i += 1;
        }
        proof {
            assert(ks@.take(i as int) =~= ks@);
        }
        out
    }

    /// The element children of `p`.
    pub fn children_of(&self, p: usize) -> (r: Vec<usize>)
        requires
            self.wf(),
            p < self.nodes@.len(),
        ensures
            r@ == children(self.nodes@, p as int),
            forall|k: int| 0 <= k < r@.len() ==> #[trigger] r@[k] < self.nodes@.len(),
    {
        let ks = &self.kids[p];
        let mut out: Vec<usize> = Vec::new();
        let mut i: usize = 0;
        while i < ks.len()
            invariant
                self.wf(),
                p < self.nodes@.len(),
                *ks == self.kids@[p as int],
                i <= ks@.len(),
                out@ == ks@.take(i as int),
                forall|k: int| 0 <= k < out@.len() ==> #[trigger] out@[k] < self.nodes@.len(),
            decreases ks@.len() - i,
        {
            proof {
                lemma_kids_bound(self.nodes@, p as int, self.nodes@.len() as int, i as int);
            }
            out.push(ks[i]);
            proof {
                assert(ks@.take(i + 1) =~= ks@.take(i as int).push(ks@[i as int]));
            }
            i += 1;
        }
        proof {
            assert(ks@.take(i as int) =~= ks@);
        }
        out
    }

    /// The first element child of `p` named `name`.
    pub fn child(&self, p: Option<usize>, name: &str) -> (r: Option<usize>)
        requires
            self.wf(),
            p matches Some(q) ==> q < self.nodes@.len(),
        ensures
            r == child_of(self.nodes@, p, name@),
            r matches Some(k) ==> k < self.nodes@.len(),
    {
        match p {
            None => None,
            Some(q) => {
                let ks = self.named_children(q, name);
                if ks.len() > 0 { Some(ks[0]) } else { None }
            },
        }
    }

    /// The trimmed text of node `k`, when not all white space.
    pub fn text_of(&self, k: usize) -> (r: Option<String>)
        requires
            k < self.nodes@.len(),
        ensures
            r matches Some(t) ==> node_text(self.nodes@, k as int) == Some(t@),
            r is None ==> node_text(self.nodes@, k as int) is None,
    {
        match &self.nodes[k].text {
            Some(t) => {
                let s = trim_xml(t.as_str());
                if s.unicode_len() > 0 { Some(s) } else { None }
            },
            None => None,
        }
    }

    /// The trimmed text of the first child `name` of `p`.
    pub fn child_text(&self, p: Option<usize>, name: &str) -> (r: Option<String>)
        requires
            self.wf(),
            p matches Some(q) ==> q < self.nodes@.len(),
        ensures
            r matches Some(t) ==> child_text(self.nodes@, p, name@) == Some(t@),
            r is None ==> child_text(self.nodes@, p, name@) is None,
    {
        match self.child(p, name) {
            Some(c) => self.text_of(c),
            None => None,
        }
    }

    /// The integer text of the first child `name` of `p`, when it lies in `lo..=hi`.
    pub fn child_int(&self, p: Option<usize>, name: &str, lo: i128, hi: i128) -> (r: Option<i128>)
        requires
            self.wf(),
            p matches Some(q) ==> q < self.nodes@.len(),
        ensures
            r matches Some(v) ==> child_int(self.nodes@, p, name@, lo as int, hi as int) == Some(v as int) && lo <= v <= hi,
            r is None ==> child_int(self.nodes@, p, name@, lo as int, hi as int) is None,
    {
        match self.child_text(p, name) {
            Some(t) => match parse_int(t.as_str()) {
                Some(v) => if lo <= v && v <= hi { Some(v) } else { None },
                None => None,
            },
            None => None,
        }
    }

    /// Whether the first child `name` of `p` reads `true` or `1`.
    pub fn child_flag(&self, p: Option<usize>, name: &str) -> (r: bool)
        requires
            self.wf(),
            p matches Some(q) ==> q < self.nodes@.len(),
        ensures
            r == child_flag(self.nodes@, p, name@),
    {
        match self.child_text(p, name) {
            Some(t) => {
                proof {
                    reveal_strlit("true");
                    reveal_strlit("1");
                }
                str_eq(t.as_str(), "true") || str_eq(t.as_str(), "1")
            },
            None => false,
        }
    }

    /// The document's first element.
    pub fn root_element(&self) -> (r: Option<usize>)
        ensures
            r == first_element(self.nodes@, self.nodes@.len() as int),
            r matches Some(k) ==> k < self.nodes@.len(),
    {
        let n = self.nodes.len();
        let mut i: usize = 0;
        while i < n
            invariant
                i <= n,
                n == self.nodes@.len(),
                first_element(self.nodes@, i as int) is None,
            decreases n - i,
        {
            if self.nodes[i].is_element {
                proof {
                    lemma_first_element_stays(self.nodes@, i as int + 1, n as int);
                }
                return Some(i);
            }
            i += 1;
        }
        None
    }
}

proof fn lemma_first_element_stays(nodes: Seq<XmlNode>, m: int, n: int)
    requires
        0 < m <= n,
        first_element(nodes, m) is Some,
    ensures
        first_element(nodes, n) == first_element(nodes, m),
    decreases n - m,
{
    if m < n {
        lemma_first_element_stays(nodes, m, n - 1);
    }
}

proof fn lemma_kids_bound(nodes: Seq<XmlNode>, p: int, n: int, i: int)
    requires
        0 <= n <= nodes.len(),
        0 <= i < kids_upto(nodes, p, n).len(),
    ensures
        kids_upto(nodes, p, n)[i] < n,
    decreases n,
{
    if n > 0 {
        let k = kids_upto(nodes, p, n - 1);
        if i < k.len() {
            lemma_kids_bound(nodes, p, n - 1, i);
        }
    }
}

} // verus!
