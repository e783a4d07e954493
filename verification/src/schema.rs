//! The schema registry: message shapes, method descriptors, and the table
//! that finds a descriptor by its service and method name.

use crate::text::same_text;
use vstd::prelude::*;

verus! {

/// The model of a message shape.
pub enum ShapeModel {
    Bool,
    Integer,
    Text,
    /// One of the given symbols.
    Enum(Seq<Seq<char>>),
    /// Any number of values of one shape.
    Repeated(Box<ShapeModel>),
    /// Named fields, each with a shape of its own.
    Message(Seq<(Seq<char>, ShapeModel)>),
}

/// The six kinds of shape.
#[derive(Clone, Copy, Debug, PartialEq, Eq, Structural)]
pub enum ShapeKind {
    Bool,
    Integer,
    Text,
    Enum,
    Repeated,
    Message,
}

/// Whether no two of `names` are equal.
pub open spec fn distinct(names: Seq<Seq<char>>) -> bool {
    forall|i: int, j: int| 0 <= i < j < names.len() ==> names[i] != names[j]
}

/// The names of a message's fields, in order.
pub open spec fn field_names<T>(fields: Seq<(Seq<char>, T)>) -> Seq<Seq<char>> {
    Seq::new(fields.len(), |i: int| fields[i].0)
}

impl ShapeModel {
    pub open spec fn kind(self) -> ShapeKind {
        match self {
            ShapeModel::Bool => ShapeKind::Bool,
            ShapeModel::Integer => ShapeKind::Integer,
            ShapeModel::Text => ShapeKind::Text,
            ShapeModel::Enum(_) => ShapeKind::Enum,
            ShapeModel::Repeated(_) => ShapeKind::Repeated,
            ShapeModel::Message(_) => ShapeKind::Message,
        }
    }

    /// A shape is well formed when every enum in it has at least one symbol
    /// and no symbol twice, and no message in it has two fields of one name.
    pub open spec fn well_formed(self) -> bool
        decreases self,
    {
        match self {
            ShapeModel::Enum(symbols) => symbols.len() > 0 && distinct(symbols),
            ShapeModel::Repeated(element) => element.well_formed(),
            ShapeModel::Message(fields) => distinct(field_names(fields)) && forall|i: int|
                0 <= i < fields.len() ==> (#[trigger] fields[i]).1.well_formed(),
            _ => true,
        }
    }
}

/// One named field of a message shape.
#[derive(Debug, PartialEq, Eq)]
pub struct Field {
    pub name: String,
    pub shape: Shape,
}

/// The shape of a request or response message, or of a part of one.
#[derive(Debug, PartialEq, Eq)]
pub enum Shape {
    Bool,
    Integer,
    Text,
    Enum(Vec<String>),
    Repeated(Box<Shape>),
    Message(Vec<Field>),
}

impl View for Field {
    type V = (Seq<char>, ShapeModel);

    open spec fn view(&self) -> (Seq<char>, ShapeModel) {
        (self.name@, self.shape@)
    }
}

impl View for Shape {
    type V = ShapeModel;

    open spec fn view(&self) -> ShapeModel
        decreases self,
    {
        match self {
            Shape::Bool => ShapeModel::Bool,
            Shape::Integer => ShapeModel::Integer,
            Shape::Text => ShapeModel::Text,
            Shape::Enum(symbols) => ShapeModel::Enum(texts_view(symbols@)),
            Shape::Repeated(element) => ShapeModel::Repeated(Box::new((**element)@)),
            Shape::Message(fields) => ShapeModel::Message(fields_view(fields@)),
        }
    }
}

/// The models of a run of texts, in order.
pub open spec fn texts_view(texts: Seq<String>) -> Seq<Seq<char>> {
    Seq::new(texts.len(), |i: int| texts[i]@)
}

/// The models of a run of fields, in order.
pub open spec fn fields_view(fields: Seq<Field>) -> Seq<(Seq<char>, ShapeModel)>
    decreases fields,
{
    if fields.len() == 0 {
        Seq::empty()
    } else {
        fields_view(fields.drop_last()).push((fields.last().name@, fields.last().shape@))
    }
}

/// `fields_view` works field by field.
pub proof fn lemma_fields_view(fields: Seq<Field>)
    ensures
        fields_view(fields).len() == fields.len(),
        forall|i: int| 0 <= i < fields.len() ==> (#[trigger] fields_view(fields)[i]) == fields[i]@,
    decreases fields.len(),
{
    reveal_with_fuel(fields_view, 2);
    if fields.len() > 0 {
        lemma_fields_view(fields.drop_last());
    }
}

/// Whether no two of `texts` are equal.
pub fn all_distinct(texts: &Vec<String>) -> (r: bool)
    ensures
        r == distinct(texts_view(texts@)),
{
    let ghost names = texts_view(texts@);
    let mut j: usize = 0;
    while j < texts.len()
        invariant
            j <= texts.len(),
            names == texts_view(texts@),
            forall|a: int, b: int| 0 <= a < b < j ==> names[a] != names[b],
        decreases texts.len() - j,
    {
        let mut i: usize = 0;
        while i < j
            invariant
                i <= j < texts.len(),
                names == texts_view(texts@),
                forall|a: int, b: int| 0 <= a < b < j ==> names[a] != names[b],
                forall|a: int| 0 <= a < i ==> names[a] != names[j as int],
            decreases j - i,
        {
            if same_text(texts[i].as_str(), texts[j].as_str()) {
                assert(names[i as int] == names[j as int]);
                return false;
            }
            i += 1;
        }
        j += 1;
    }
    true
}

/// Whether no two of `fields` have one name.
pub fn names_distinct(fields: &Vec<Field>) -> (r: bool)
    ensures
        r == distinct(field_names(fields_view(fields@))),
{
    let ghost names = field_names(fields_view(fields@));
    proof {
        lemma_fields_view(fields@);
    }
    let mut j: usize = 0;
    while j < fields.len()
        invariant
            j <= fields.len(),
            names == field_names(fields_view(fields@)),
            names.len() == fields.len(),
            forall|k: int| 0 <= k < fields.len() ==> (#[trigger] names[k]) == fields[k].name@,
            forall|a: int, b: int| 0 <= a < b < j ==> names[a] != names[b],
        decreases fields.len() - j,
    {
        let mut i: usize = 0;
        while i < j
            invariant
                i <= j < fields.len(),
                names == field_names(fields_view(fields@)),
                names.len() == fields.len(),
                forall|k: int| 0 <= k < fields.len() ==> (#[trigger] names[k]) == fields[k].name@,
                forall|a: int, b: int| 0 <= a < b < j ==> names[a] != names[b],
                forall|a: int| 0 <= a < i ==> names[a] != names[j as int],
            decreases j - i,
        {
            if same_text(fields[i].name.as_str(), fields[j].name.as_str()) {
                assert(names[i as int] == names[j as int]);
                return false;
            }
            i += 1;
        }
        j += 1;
    }
    true
}

impl Shape {
    /// Whether this shape is well formed.
    pub fn is_well_formed(&self) -> (r: bool)
        ensures
            r == self@.well_formed(),
        decreases self,
    {
        match self {
            Shape::Enum(symbols) => symbols.len() > 0 && all_distinct(symbols),
            Shape::Repeated(element) => (**element).is_well_formed(),
            Shape::Message(fields) => {
                if !names_distinct(fields) {
                    return false;
                }
                let ghost model = fields_view(fields@);
                proof {
                    lemma_fields_view(fields@);
                }
                let mut i: usize = 0;
                while i < fields.len()
                    invariant
                        i <= fields.len(),
                        *self is Message,
                        self->Message_0 == *fields,
                        self@ == ShapeModel::Message(model),
                        model == fields_view(fields@),
                        model.len() == fields.len(),
                        forall|j: int| 0 <= j < fields.len() ==> (#[trigger] model[j]) == fields[j]@,
                        forall|j: int| 0 <= j < i ==> (#[trigger] model[j]).1.well_formed(),
                        distinct(field_names(model)),
                    decreases fields.len() - i,
                {
                    proof {
                        vstd::std_specs::vec::axiom_vec_index_decreases(*fields, i as int);
                        assert(decreases_to!(*self => self->Message_0));
                    }
                    if !fields[i].shape.is_well_formed() {
                        assert(!model[i as int].1.well_formed());
                        return false;
                    }
                    i += 1;
                }
                true
            },
            _ => true,
        }
    }

    /// The kind of this shape.
    pub fn kind(&self) -> (r: ShapeKind)
        ensures
            r == self@.kind(),
    {
        match self {
            Shape::Bool => ShapeKind::Bool,
            Shape::Integer => ShapeKind::Integer,
            Shape::Text => ShapeKind::Text,
            Shape::Enum(_) => ShapeKind::Enum,
            Shape::Repeated(_) => ShapeKind::Repeated,
            Shape::Message(_) => ShapeKind::Message,
        }
    }
}

/// The model of a method descriptor.
pub struct DescriptorModel {
    pub service_name: Seq<char>,
    pub method_name: Seq<char>,
    pub request_shape: ShapeModel,
    pub response_shape: ShapeModel,
}

impl DescriptorModel {
    /// Whether this descriptor is the one for `service` and `method`.
    pub open spec fn answers(self, service: Seq<char>, method: Seq<char>) -> bool {
        self.service_name == service && self.method_name == method
    }

    /// Whether both shapes of this descriptor are well formed.
    pub open spec fn well_formed(self) -> bool {
        self.request_shape.well_formed() && self.response_shape.well_formed()
    }
}

/// One RPC method: its names and the shapes of its request and response.
#[derive(Debug, PartialEq, Eq)]
pub struct MethodDescriptor {
    pub service_name: String,
    pub method_name: String,
    pub request_shape: Shape,
    pub response_shape: Shape,
}

impl View for MethodDescriptor {
    type V = DescriptorModel;

    open spec fn view(&self) -> DescriptorModel {
        DescriptorModel {
            service_name: self.service_name@,
            method_name: self.method_name@,
            request_shape: self.request_shape@,
            response_shape: self.response_shape@,
        }
    }
}

/// The models of a run of descriptors, in order.
pub open spec fn catalog_view(catalog: Seq<MethodDescriptor>) -> Seq<DescriptorModel> {
    Seq::new(catalog.len(), |i: int| catalog[i]@)
}

/// Whether an earlier entry of `catalog` has the names of entry `index`.
pub open spec fn repeats_earlier(catalog: Seq<DescriptorModel>, index: int) -> bool {
    exists|i: int|
        0 <= i < index && (#[trigger] catalog[i]).answers(
            catalog[index].service_name,
            catalog[index].method_name,
        )
}

/// Whether no two entries of `catalog` share their service and method name.
pub open spec fn unique_keys(catalog: Seq<DescriptorModel>) -> bool {
    forall|index: int| 0 <= index < catalog.len() ==> !repeats_earlier(catalog, index)
}

/// Whether every entry of `catalog` has well-formed shapes.
pub open spec fn well_formed_shapes(catalog: Seq<DescriptorModel>) -> bool {
    forall|index: int| 0 <= index < catalog.len() ==> (#[trigger] catalog[index]).well_formed()
}

/// Whether entry `index` of `catalog` may stand in a registry after the
/// entries before it: its shapes are well formed and its names are new.
pub open spec fn acceptable(catalog: Seq<DescriptorModel>, index: int) -> bool {
    catalog[index].well_formed() && !repeats_earlier(catalog, index)
}

/// The first entry of `catalog` for `service` and `method`, if there is one.
pub open spec fn find(catalog: Seq<DescriptorModel>, service: Seq<char>, method: Seq<char>) -> Option<
    DescriptorModel,
>
    decreases catalog.len(),
{
    if catalog.len() == 0 {
        None
    } else if catalog[0].answers(service, method) {
        Some(catalog[0])
    } else {
        find(catalog.skip(1), service, method)
    }
}

/// Why a catalog cannot become a registry.
#[derive(Clone, Copy, Debug, PartialEq, Eq, Structural)]
pub enum CatalogError {
    /// A shape of the entry at `index` is not well formed.
    MalformedShape { index: usize },
    /// The entry at `index` has the names of an earlier entry.
    DuplicateMethod { index: usize },
}

/// The table of every method the gateway can route to. It is built once and
/// never changes; no two of its descriptors share their names, and every
/// shape in it is well formed.
pub struct SchemaRegistry {
    descriptors: Vec<MethodDescriptor>,
}

impl View for SchemaRegistry {
    type V = Seq<DescriptorModel>;

    closed spec fn view(&self) -> Seq<DescriptorModel> {
        catalog_view(self.descriptors@)
    }
}

impl SchemaRegistry {
    #[verifier::type_invariant]
    spec fn sound(&self) -> bool {
        unique_keys(catalog_view(self.descriptors@)) && well_formed_shapes(
            catalog_view(self.descriptors@),
        )
    }

    /// The registry without methods.
    pub fn new() -> (r: SchemaRegistry)
        ensures
            r@ == Seq::<DescriptorModel>::empty(),
    {
        let descriptors: Vec<MethodDescriptor> = Vec::new();
        assert(catalog_view(descriptors@) =~= Seq::empty());
        SchemaRegistry { descriptors }
    }

    /// Builds the registry of `catalog`. It holds the catalog's descriptors in
    /// the catalog's order. A catalog is refused at its first entry that has
    /// a shape that is not well formed, or else the names of an earlier
    /// entry; the error gives that entry's index.
    pub fn from_catalog(catalog: Vec<MethodDescriptor>) -> (r: Result<SchemaRegistry, CatalogError>)
        ensures
            match r {
                Ok(registry) => {
                    &&& registry@ == catalog_view(catalog@)
                    &&& unique_keys(registry@)
                    &&& well_formed_shapes(registry@)
                },
                Err(CatalogError::MalformedShape { index }) => {
                    &&& index < catalog.len()
                    &&& !catalog_view(catalog@)[index as int].well_formed()
                    &&& forall|j: int| 0 <= j < index ==> acceptable(catalog_view(catalog@), j)
                },
                Err(CatalogError::DuplicateMethod { index }) => {
                    &&& index < catalog.len()
                    &&& catalog_view(catalog@)[index as int].well_formed()
                    &&& repeats_earlier(catalog_view(catalog@), index as int)
                    &&& forall|j: int| 0 <= j < index ==> acceptable(catalog_view(catalog@), j)
                },
            },
    {
        let ghost all = catalog_view(catalog@);
        let mut index: usize = 0;
        while index < catalog.len()
            invariant
                index <= catalog.len(),
                all == catalog_view(catalog@),
                forall|j: int| 0 <= j < index ==> acceptable(all, j),
            decreases catalog.len() - index,
        {
            if !catalog[index].request_shape.is_well_formed()
                || !catalog[index].response_shape.is_well_formed() {
                return Err(CatalogError::MalformedShape { index });
            }
            let mut earlier: usize = 0;
            while earlier < index
                invariant
                    earlier <= index < catalog.len(),
                    all == catalog_view(catalog@),
                    all[index as int].well_formed(),
                    forall|j: int| 0 <= j < index ==> acceptable(all, j),
                    forall|i: int|
                        0 <= i < earlier ==> !(#[trigger] all[i]).answers(
                            all[index as int].service_name,
                            all[index as int].method_name,
                        ),
                decreases index - earlier,
            {
                if answers(
                    &catalog[earlier],
                    catalog[index].service_name.as_str(),
                    catalog[index].method_name.as_str(),
                ) {
                    assert(all[earlier as int].answers(
                        all[index as int].service_name,
                        all[index as int].method_name,
                    ));
                    return Err(CatalogError::DuplicateMethod { index });
                }
                earlier += 1;
            }
            index += 1;
        }
        assert forall|j: int| 0 <= j < all.len() implies !repeats_earlier(all, j) && (
        #[trigger] all[j]).well_formed() by {
            assert(acceptable(all, j));
        }
        Ok(SchemaRegistry { descriptors: catalog })
    }

    /// How many methods the registry holds.
    pub fn len(&self) -> (r: usize)
        ensures
            r == self@.len(),
    {
        self.descriptors.len()
    }

    /// The descriptor for `service` and `method`, or `None` where the
    /// registry has no such method.
    pub fn lookup(&self, service: &str, method: &str) -> (r: Option<&MethodDescriptor>)
        ensures
            match r {
                Some(descriptor) => find(self@, service@, method@) == Some(descriptor@),
                None => find(self@, service@, method@).is_none(),
            },
            r matches Some(descriptor) ==> descriptor@.well_formed(),
            unique_keys(self@),
            well_formed_shapes(self@),
    {
        proof {
            use_type_invariant(self);
        }
        let ghost all = self@;
        let mut i: usize = 0;
        assert(all.skip(0) =~= all);
        while i < self.descriptors.len()
            invariant
                i <= self.descriptors.len(),
                all == catalog_view(self.descriptors@),
                all == self@,
                unique_keys(all),
                well_formed_shapes(all),
                find(all, service@, method@) == find(all.skip(i as int), service@, method@),
            decreases self.descriptors.len() - i,
        {
            assert(all.skip(i as int).skip(1) =~= all.skip(i as int + 1));
            assert(all.skip(i as int)[0] == self.descriptors[i as int]@);
            if answers(&self.descriptors[i], service, method) {
                return Some(&self.descriptors[i]);
            }
            i += 1;
        }
        None
    }
}

/// Whether `descriptor` is the one for `service` and `method`.
pub fn answers(descriptor: &MethodDescriptor, service: &str, method: &str) -> (r: bool)
    ensures
        r == descriptor@.answers(service@, method@),
{
    same_text(descriptor.service_name.as_str(), service) && same_text(
        descriptor.method_name.as_str(),
        method,
    )
}

/// `find` yields `None` exactly when no entry answers to the names.
pub proof fn lemma_find_none(catalog: Seq<DescriptorModel>, service: Seq<char>, method: Seq<char>)
    ensures
        find(catalog, service, method).is_none() <==> forall|i: int|
            0 <= i < catalog.len() ==> !(#[trigger] catalog[i]).answers(service, method),
    decreases catalog.len(),
{
    if catalog.len() > 0 {
        let rest = catalog.skip(1);
        lemma_find_none(rest, service, method);
        if !catalog[0].answers(service, method) {
            if find(rest, service, method).is_none() {
                assert forall|i: int| 0 <= i < catalog.len() implies !(#[trigger] catalog[i]).answers(
                    service,
                    method,
                ) by {
                    if i > 0 {
                        assert(catalog[i] == rest[i - 1]);
                    }
                }
            } else {
                let i = choose|i: int| 0 <= i < rest.len() && (#[trigger] rest[i]).answers(service, method);
                assert(catalog[i + 1] == rest[i]);
            }
        }
    }
}

/// What `find` yields answers to the names it was asked for and is an entry
/// of the catalog.
pub proof fn lemma_find_some(catalog: Seq<DescriptorModel>, service: Seq<char>, method: Seq<char>)
    requires
        find(catalog, service, method).is_some(),
    ensures
        find(catalog, service, method).unwrap().answers(service, method),
        catalog.contains(find(catalog, service, method).unwrap()),
    decreases catalog.len(),
{
    if catalog[0].answers(service, method) {
        assert(catalog[0] == find(catalog, service, method).unwrap());
    } else {
        let rest = catalog.skip(1);
        lemma_find_some(rest, service, method);
        let found = find(rest, service, method).unwrap();
        let i = choose|i: int| 0 <= i < rest.len() && rest[i] == found;
        assert(catalog[i + 1] == found);
    }
}

/// In a catalog without repeated names, every entry is the one that `find`
/// yields for its own names: a descriptor is looked up by its names alone.
pub proof fn lemma_unique_keys_find(catalog: Seq<DescriptorModel>, index: int)
    requires
        unique_keys(catalog),
        0 <= index < catalog.len(),
    ensures
        find(catalog, catalog[index].service_name, catalog[index].method_name) == Some(
            catalog[index],
        ),
    decreases catalog.len(),
{
    let service = catalog[index].service_name;
    let method = catalog[index].method_name;
    if index == 0 {
    } else {
        assert(!repeats_earlier(catalog, index));
        assert(!catalog[0].answers(service, method));
        let rest = catalog.skip(1);
        assert forall|k: int| 0 <= k < rest.len() implies !repeats_earlier(rest, k) by {
            assert(!repeats_earlier(catalog, k + 1));
            if repeats_earlier(rest, k) {
                let i = choose|i: int|
                    0 <= i < k && (#[trigger] rest[i]).answers(
                        rest[k].service_name,
                        rest[k].method_name,
                    );
                assert(catalog[i + 1] == rest[i]);
            }
        }
        lemma_unique_keys_find(rest, index - 1);
    }
}

} // verus!
