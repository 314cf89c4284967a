//! Attributes and attribute groups: a named, tagged list of values, ordered
//! groups of attributes bounded by delimiter tags, and the container that
//! preserves group order and insertion order while allowing lookup by name.

use vstd::prelude::*;
use vstd::utf8::encode_utf8;

use crate::value::{
    values_view, wf_value, IppValue, ValueV, TAG_EVENT_NOTIFICATION_ATTRIBUTES,
    TAG_JOB_ATTRIBUTES, TAG_OPERATION_ATTRIBUTES, TAG_PRINTER_ATTRIBUTES,
    TAG_SUBSCRIPTION_ATTRIBUTES, TAG_UNSUPPORTED_ATTRIBUTES,
};

verus! {

// Attribute names the operation builders emit.
pub const ATTRIBUTES_CHARSET: &'static str = "attributes-charset";

pub const ATTRIBUTES_NATURAL_LANGUAGE: &'static str = "attributes-natural-language";

pub const PRINTER_URI: &'static str = "printer-uri";

pub const REQUESTING_USER_NAME: &'static str = "requesting-user-name";

pub const JOB_NAME: &'static str = "job-name";

pub const JOB_ID: &'static str = "job-id";

pub const LAST_DOCUMENT: &'static str = "last-document";

pub const REQUESTED_ATTRIBUTES: &'static str = "requested-attributes";

/// One logical attribute: a non-empty name and one or more values. Repeated
/// wire entries with an empty name accumulate here as further values.
#[derive(Debug)]
pub struct IppAttribute {
    pub name: Vec<u8>,
    pub values: Vec<IppValue>,
}

/// The spec-level counterpart of `IppAttribute`.
#[verifier::ext_equal]
pub struct AttrV {
    pub name: Seq<u8>,
    pub values: Seq<ValueV>,
}

impl View for IppAttribute {
    type V = AttrV;

    open spec fn view(&self) -> AttrV {
        AttrV { name: self.name@, values: values_view(self.values@) }
    }
}

impl IppAttribute {
    /// Creates a single-valued attribute under a string name.
    pub fn new(name: &str, value: IppValue) -> (r: IppAttribute)
        ensures
            r@.name == encode_utf8(name@),
            r@.values =~= seq![value@],
    {
        let vs = vec![value];
        proof {
            crate::value::lemma_values_view(vs@);
            assert(values_view(vs@) =~= seq![vs@[0]@]);
        }
        IppAttribute { name: crate::value::str_bytes(name), values: vs }
    }

    /// Creates a multi-valued (1setOf) attribute under a string name.
    pub fn new_set(name: &str, values: Vec<IppValue>) -> (r: IppAttribute)
        requires
            values@.len() >= 1,
        ensures
            r@.name == encode_utf8(name@),
            r@.values == values_view(values@),
    {
        IppAttribute { name: crate::value::str_bytes(name), values }
    }

    /// Creates a single-valued attribute under a raw byte name.
    pub fn from_raw(name: Vec<u8>, value: IppValue) -> (r: IppAttribute)
        ensures
            r@.name == name@,
            r@.values =~= seq![value@],
    {
        let vs = vec![value];
        proof {
            crate::value::lemma_values_view(vs@);
            assert(values_view(vs@) =~= seq![vs@[0]@]);
        }
        IppAttribute { name, values: vs }
    }

    /// The attribute's raw name bytes.
    pub fn name(&self) -> (r: &Vec<u8>)
        ensures
            r@ == self@.name,
    {
        &self.name
    }

    /// The attribute's name decoded lossily to text.
    pub fn name_text(&self) -> (r: String)
        ensures
            r@ == crate::value::spec_lossy_utf8(self@.name),
    {
        crate::value::bytes_to_string_lossy(self.name.as_slice())
    }

    /// The attribute's values, in wire order.
    pub fn values(&self) -> (r: &Vec<IppValue>)
        ensures
            values_view(r@) == self@.values,
    {
        &self.values
    }

    /// The attribute's first value.
    pub fn value(&self) -> (r: &IppValue)
        requires
            self@.values.len() >= 1,
        ensures
            r@ == self@.values[0],
    {
        proof {
            crate::value::lemma_values_view(self.values@);
        }
        &self.values[0]
    }

    /// Appends a further value, as a 1setOf continuation does.
    pub fn push_value(&mut self, v: IppValue)
        ensures
            final(self)@.name == old(self)@.name,
            final(self)@.values == old(self)@.values.push(v@),
    {
        proof {
            crate::value::lemma_values_view_push(self.values@, v);
        }
        self.values.push(v);
    }
}

/// One attribute group: a delimiter tag and its attributes in wire order.
#[derive(Debug)]
pub struct IppGroup {
    pub tag: u8,
    pub attributes: Vec<IppAttribute>,
}

/// The spec-level counterpart of `IppGroup`.
#[verifier::ext_equal]
pub struct GroupV {
    pub tag: u8,
    pub attrs: Seq<AttrV>,
}

/// The spec-level attribute list a vector of attributes stands for.
pub open spec fn attrs_view(s: Seq<IppAttribute>) -> Seq<AttrV>
    decreases s,
{
    if s.len() == 0 {
        Seq::empty()
    } else {
        seq![s[0]@] + attrs_view(s.drop_first())
    }
}

pub proof fn lemma_attrs_view(s: Seq<IppAttribute>)
    ensures
        attrs_view(s).len() == s.len(),
        forall|i: int| 0 <= i < s.len() ==> attrs_view(s)[i] == s[i]@,
    decreases s.len(),
{
    if s.len() > 0 {
        lemma_attrs_view(s.drop_first());
    }
}

pub proof fn lemma_attrs_view_push(s: Seq<IppAttribute>, a: IppAttribute)
    ensures
        attrs_view(s.push(a)) == attrs_view(s).push(a@),
{
    lemma_attrs_view(s.push(a));
    lemma_attrs_view(s);
    assert(attrs_view(s.push(a)) =~= attrs_view(s).push(a@));
}

impl View for IppGroup {
    type V = GroupV;

    open spec fn view(&self) -> GroupV {
        GroupV { tag: self.tag, attrs: attrs_view(self.attributes@) }
    }
}

/// The index of the first attribute named `name` at or after `i`.
pub open spec fn spec_find_attr_from(attrs: Seq<AttrV>, name: Seq<u8>, i: int) -> Option<int>
    decreases attrs.len() - i,
{
    if i < 0 || i >= attrs.len() {
        None
    } else if attrs[i].name == name {
        Some(i)
    } else {
        spec_find_attr_from(attrs, name, i + 1)
    }
}

/// The index of the first attribute named `name`.
pub open spec fn spec_find_attr(attrs: Seq<AttrV>, name: Seq<u8>) -> Option<int> {
    spec_find_attr_from(attrs, name, 0)
}

/// True of the two byte vectors with equal contents.
pub fn bytes_eq(a: &Vec<u8>, b: &Vec<u8>) -> (r: bool)
    ensures
        r <==> a@ == b@,
{
    if a.len() != b.len() {
        proof {
            assert(a@.len() != b@.len());
        }
        return false;
    }
    let mut i: usize = 0;
    while i < a.len()
        invariant
            i <= a@.len(),
            a@.len() == b@.len(),
            forall|j: int| 0 <= j < i ==> a@[j] == b@[j],
        decreases a@.len() - i,
    {
        if a[i] != b[i] {
            return false;
        }
        i = i + 1;
    }
    proof {
        assert(a@ =~= b@);
    }
    true
}

fn find_attr_from(attrs: &Vec<IppAttribute>, name: &Vec<u8>, i: usize) -> (r: Option<usize>)
    requires
        i <= attrs@.len(),
    ensures
        match r {
            Some(k) => spec_find_attr_from(attrs_view(attrs@), name@, i as int) == Some(k as int)
                && k < attrs@.len(),
            None => spec_find_attr_from(attrs_view(attrs@), name@, i as int) is None,
        },
    decreases attrs@.len() - i,
{
    proof {
        lemma_attrs_view(attrs@);
    }
    if i >= attrs.len() {
        None
    } else if bytes_eq(attrs[i].name(), name) {
        Some(i)
    } else {
        find_attr_from(attrs, name, i + 1)
    }
}

impl IppGroup {
    /// The group's delimiter tag.
    pub fn tag(&self) -> (r: u8)
        ensures
            r == self@.tag,
    {
        self.tag
    }

    /// The group's attributes, in wire order.
    pub fn attributes(&self) -> (r: &Vec<IppAttribute>)
        ensures
            attrs_view(r@) == self@.attrs,
    {
        &self.attributes
    }

    /// Looks up the first attribute with the given name.
    pub fn get(&self, name: &str) -> (r: Option<&IppAttribute>)
        ensures
            match spec_find_attr(self@.attrs, encode_utf8(name@)) {
                Some(i) => r matches Some(a) && a@ == self@.attrs[i],
                None => r is None,
            },
    {
        let nb = crate::value::str_bytes(name);
        match find_attr_from(&self.attributes, &nb, 0) {
            Some(i) => {
                proof {
                    lemma_attrs_view(self.attributes@);
                }
                Some(&self.attributes[i])
            },
            None => None,
        }
    }
}

/// True of the tags that open an attribute group.
pub open spec fn spec_group_tag(tag: u8) -> bool {
    tag == TAG_OPERATION_ATTRIBUTES || tag == TAG_JOB_ATTRIBUTES || tag == TAG_PRINTER_ATTRIBUTES
        || tag == TAG_UNSUPPORTED_ATTRIBUTES || tag == TAG_SUBSCRIPTION_ATTRIBUTES || tag
        == TAG_EVENT_NOTIFICATION_ATTRIBUTES
}

/// The delimiter tags that may open an attribute group.
#[derive(Clone, Copy, PartialEq, Eq, Structural, Debug)]
pub enum DelimiterTag {
    OperationAttributes,
    JobAttributes,
    PrinterAttributes,
    UnsupportedAttributes,
    SubscriptionAttributes,
    EventNotificationAttributes,
}

impl DelimiterTag {
    /// The wire byte of this delimiter.
    pub open spec fn spec_as_u8(self) -> u8 {
        match self {
            DelimiterTag::OperationAttributes => TAG_OPERATION_ATTRIBUTES,
            DelimiterTag::JobAttributes => TAG_JOB_ATTRIBUTES,
            DelimiterTag::PrinterAttributes => TAG_PRINTER_ATTRIBUTES,
            DelimiterTag::UnsupportedAttributes => TAG_UNSUPPORTED_ATTRIBUTES,
            DelimiterTag::SubscriptionAttributes => TAG_SUBSCRIPTION_ATTRIBUTES,
            DelimiterTag::EventNotificationAttributes => TAG_EVENT_NOTIFICATION_ATTRIBUTES,
        }
    }

    /// The wire byte of this delimiter.
    pub fn as_u8(self) -> (r: u8)
        ensures
            r == self.spec_as_u8(),
            spec_group_tag(r),
    {
        match self {
            DelimiterTag::OperationAttributes => TAG_OPERATION_ATTRIBUTES,
            DelimiterTag::JobAttributes => TAG_JOB_ATTRIBUTES,
            DelimiterTag::PrinterAttributes => TAG_PRINTER_ATTRIBUTES,
            DelimiterTag::UnsupportedAttributes => TAG_UNSUPPORTED_ATTRIBUTES,
            DelimiterTag::SubscriptionAttributes => TAG_SUBSCRIPTION_ATTRIBUTES,
            DelimiterTag::EventNotificationAttributes => TAG_EVENT_NOTIFICATION_ATTRIBUTES,
        }
    }
}

/// The spec-level group list a vector of groups stands for.
pub open spec fn groups_view(s: Seq<IppGroup>) -> Seq<GroupV>
    decreases s,
{
    if s.len() == 0 {
        Seq::empty()
    } else {
        seq![s[0]@] + groups_view(s.drop_first())
    }
}

pub proof fn lemma_groups_view(s: Seq<IppGroup>)
    ensures
        groups_view(s).len() == s.len(),
        forall|i: int| 0 <= i < s.len() ==> groups_view(s)[i] == s[i]@,
    decreases s.len(),
{
    if s.len() > 0 {
        lemma_groups_view(s.drop_first());
    }
}

pub proof fn lemma_groups_view_push(s: Seq<IppGroup>, g: IppGroup)
    ensures
        groups_view(s.push(g)) == groups_view(s).push(g@),
{
    lemma_groups_view(s.push(g));
    lemma_groups_view(s);
    assert(groups_view(s.push(g)) =~= groups_view(s).push(g@));
}

/// The index of the first group with the given delimiter tag at or after `i`.
pub open spec fn spec_find_group_from(gs: Seq<GroupV>, tag: u8, i: int) -> Option<int>
    decreases gs.len() - i,
{
    if i < 0 || i >= gs.len() {
        None
    } else if gs[i].tag == tag {
        Some(i)
    } else {
        spec_find_group_from(gs, tag, i + 1)
    }
}

/// The index of the first group with the given delimiter tag.
pub open spec fn spec_find_group(gs: Seq<GroupV>, tag: u8) -> Option<int> {
    spec_find_group_from(gs, tag, 0)
}

/// The group list after inserting `a` under the group tagged `tag`: the first
/// group with that tag gains the attribute (replacing one of equal name in
/// place, else appended last); a missing group is appended with it.
pub open spec fn spec_set_attribute(gs: Seq<GroupV>, tag: u8, a: AttrV) -> Seq<GroupV> {
    match spec_find_group(gs, tag) {
        Some(gi) => {
            let g = gs[gi];
            match spec_find_attr(g.attrs, a.name) {
                Some(ai) => gs.update(gi, GroupV { tag: g.tag, attrs: g.attrs.update(ai, a) }),
                None => gs.update(gi, GroupV { tag: g.tag, attrs: g.attrs.push(a) }),
            }
        },
        None => gs.push(GroupV { tag, attrs: seq![a] }),
    }
}

/// Ordered attribute groups of one message, preserving group order and
/// attribute insertion order.
#[derive(Debug)]
pub struct IppAttributeList {
    pub groups: Vec<IppGroup>,
}

impl View for IppAttributeList {
    type V = Seq<GroupV>;

    open spec fn view(&self) -> Seq<GroupV> {
        groups_view(self.groups@)
    }
}

fn find_group_from(gs: &Vec<IppGroup>, tag: u8, i: usize) -> (r: Option<usize>)
    requires
        i <= gs@.len(),
    ensures
        match r {
            Some(k) => spec_find_group_from(groups_view(gs@), tag, i as int) == Some(k as int) && k
                < gs@.len(),
            None => spec_find_group_from(groups_view(gs@), tag, i as int) is None,
        },
    decreases gs@.len() - i,
{
    proof {
        lemma_groups_view(gs@);
    }
    if i >= gs.len() {
        None
    } else if gs[i].tag == tag {
        Some(i)
    } else {
        find_group_from(gs, tag, i + 1)
    }
}

impl IppAttributeList {
    /// Creates an empty group list.
    pub fn new() -> (r: IppAttributeList)
        ensures
            r@ =~= Seq::<GroupV>::empty(),
    {
        IppAttributeList { groups: Vec::new() }
    }

    /// The groups, in wire order.
    pub fn groups(&self) -> (r: &Vec<IppGroup>)
        ensures
            groups_view(r@) == self@,
    {
        &self.groups
    }

    /// Looks up the first group with the given delimiter tag.
    pub fn get_group(&self, tag: DelimiterTag) -> (r: Option<&IppGroup>)
        ensures
            match spec_find_group(self@, tag.spec_as_u8()) {
                Some(i) => r matches Some(g) && g@ == self@[i],
                None => r is None,
            },
    {
        let t = tag.as_u8();
        match find_group_from(&self.groups, t, 0) {
            Some(i) => {
                proof {
                    lemma_groups_view(self.groups@);
                }
                Some(&self.groups[i])
            },
            None => None,
        }
    }

    /// Looks up an attribute by group tag and name.
    pub fn get(&self, tag: DelimiterTag, name: &str) -> (r: Option<&IppAttribute>)
        ensures
            match spec_find_group(self@, tag.spec_as_u8()) {
                Some(gi) => match spec_find_attr(self@[gi].attrs, encode_utf8(name@)) {
                    Some(ai) => r matches Some(a) && a@ == self@[gi].attrs[ai],
                    None => r is None,
                },
                None => r is None,
            },
    {
        match self.get_group(tag) {
            Some(g) => g.get(name),
            None => None,
        }
    }

    /// Looks up an attribute the caller requires; a miss is
    /// `MissingAttribute` with the name.
    pub fn require(&self, tag: DelimiterTag, name: &str) -> (r: Result<
        &IppAttribute,
        crate::IppError,
    >)
        ensures
            match spec_find_group(self@, tag.spec_as_u8()) {
                Some(gi) => match spec_find_attr(self@[gi].attrs, encode_utf8(name@)) {
                    Some(ai) => r matches Ok(a) && a@ == self@[gi].attrs[ai],
                    None => r matches Err(e) && e matches crate::IppError::MissingAttribute(n)
                        && n@ == name@,
                },
                None => r matches Err(e) && e matches crate::IppError::MissingAttribute(n) && n@
                    == name@,
            },
    {
        match self.get(tag, name) {
            Some(a) => Ok(a),
            None => Err(crate::IppError::MissingAttribute(name.to_owned())),
        }
    }

    /// Inserts an attribute under the group with the given delimiter tag, as
    /// `spec_set_attribute` describes.
    pub fn set_attribute(&mut self, tag: DelimiterTag, attr: IppAttribute)
        ensures
            final(self)@ == spec_set_attribute(old(self)@, tag.spec_as_u8(), attr@),
    {
        let t = tag.as_u8();
        proof {
            lemma_groups_view(self.groups@);
        }
        match find_group_from(&self.groups, t, 0) {
            Some(gi) => {
                let ghost old_groups = self.groups@;
                let ghost old_view = groups_view(self.groups@);
                let mut g = self.groups.remove(gi);
                proof {
                    lemma_attrs_view(g.attributes@);
                }
                match find_attr_from(&g.attributes, attr.name(), 0) {
                    Some(ai) => {
                        let ghost old_attrs = g.attributes@;
                        g.attributes.remove(ai);
                        g.attributes.insert(ai, attr);
                        proof {
                            lemma_attrs_view_index_ops(old_attrs, ai as int, attr);
                        }
                    },
                    None => {
                        let ghost old_attrs = g.attributes@;
                        g.attributes.push(attr);
                        proof {
                            lemma_attrs_view_push(old_attrs, attr);
                        }
                    },
                }
                self.groups.insert(gi, g);
                proof {
                    lemma_groups_view_index_ops(old_groups, gi as int, g);
                    assert(groups_view(self.groups@) =~= spec_set_attribute(
                        old_view,
                        t,
                        attr@,
                    ));
                }
            },
            None => {
                let ghost old_groups = self.groups@;
                let g = IppGroup { tag: t, attributes: vec![attr] };
                self.groups.push(g);
                proof {
                    lemma_groups_view_push(old_groups, g);
                    lemma_attrs_view(g.attributes@);
                    assert(attrs_view(g.attributes@) =~= seq![attr@]);
                    assert(groups_view(self.groups@) =~= spec_set_attribute(
                        groups_view(old_groups),
                        t,
                        attr@,
                    ));
                }
            },
        }
    }
}

proof fn lemma_attrs_view_index_ops(s: Seq<IppAttribute>, i: int, a: IppAttribute)
    requires
        0 <= i < s.len(),
    ensures
        attrs_view(s.remove(i).insert(i, a)) == attrs_view(s).update(i, a@),
{
    lemma_attrs_view(s.remove(i).insert(i, a));
    lemma_attrs_view(s);
    assert(attrs_view(s.remove(i).insert(i, a)) =~= attrs_view(s).update(i, a@));
}

proof fn lemma_groups_view_index_ops(s: Seq<IppGroup>, i: int, g: IppGroup)
    requires
        0 <= i < s.len(),
    ensures
        groups_view(s.remove(i).insert(i, g)) == groups_view(s).update(i, g@),
{
    lemma_groups_view(s.remove(i).insert(i, g));
    lemma_groups_view(s);
    assert(groups_view(s.remove(i).insert(i, g)) =~= groups_view(s).update(i, g@));
}

/// Well-formedness of a value list for encoding.
pub open spec fn wf_values(vs: Seq<ValueV>) -> bool
    decreases vs,
{
    if vs.len() == 0 {
        true
    } else {
        wf_value(vs[0]) && wf_values(vs.drop_first())
    }
}

/// Well-formedness of one attribute for encoding: a non-empty name that fits
/// its 16-bit length, at least one value, every value well-formed.
pub open spec fn wf_attr(a: AttrV) -> bool {
    1 <= a.name.len() <= 0xFFFF && a.values.len() >= 1 && wf_values(a.values)
}

/// Well-formedness of an attribute list for encoding.
pub open spec fn wf_attrs(attrs: Seq<AttrV>) -> bool
    decreases attrs,
{
    if attrs.len() == 0 {
        true
    } else {
        wf_attr(attrs[0]) && wf_attrs(attrs.drop_first())
    }
}

/// Well-formedness of one group for encoding: a group delimiter tag and
/// well-formed attributes.
pub open spec fn wf_group(g: GroupV) -> bool {
    spec_group_tag(g.tag) && wf_attrs(g.attrs)
}

/// Well-formedness of a group list for encoding.
pub open spec fn wf_groups(gs: Seq<GroupV>) -> bool
    decreases gs,
{
    if gs.len() == 0 {
        true
    } else {
        wf_group(gs[0]) && wf_groups(gs.drop_first())
    }
}

} // verus!
