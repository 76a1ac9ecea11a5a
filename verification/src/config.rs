//! The development configuration model: admitted endpoints, graphs, links and groups.
use vstd::prelude::*;
use vstd::string::*;

verus! {

/// The part an object plays in the session topology.
#[derive(Clone, Copy, Debug, PartialEq, Eq, Structural)]
pub enum ObjectRole {
    Source,
    Graph,
    Sink,
}

pub open spec fn role_name(role: ObjectRole) -> Seq<char> {
    match role {
        ObjectRole::Source => "source"@,
        ObjectRole::Graph => "graph"@,
        ObjectRole::Sink => "sink"@,
    }
}

impl ObjectRole {
    pub fn name(self) -> (n: &'static str)
        ensures
            n@ == role_name(self),
    {
        match self {
            ObjectRole::Source => "source",
            ObjectRole::Graph => "graph",
            ObjectRole::Sink => "sink",
        }
    }
}

/// The abstract realization of an object: the admitted factory that creates it, or an
/// endpoint owned by someone else and selected by its PipeWire contract.
#[derive(Clone, Copy, PartialEq, Eq, Structural)]
pub enum SRealization {
    Simulated,
    Fits,
    Discard,
    FgnNative,
    External,
}

/// Something that names an admitted factory.
pub trait FactoryKind: Copy {
    spec fn kind(self) -> SRealization;

    proof fn lemma_kind_is_factory(self)
        ensures
            self.kind() != SRealization::External,
    ;
}

/// Admitted source and sink factories.
#[derive(Clone, Copy, Debug, PartialEq, Eq, Structural)]
pub enum EndpointFactory {
    SimulatedCompleteFrameSource,
    FitsCompleteFrameSource,
    FormatAgnosticDiscardSink,
}

impl FactoryKind for EndpointFactory {
    open spec fn kind(self) -> SRealization {
        match self {
            EndpointFactory::SimulatedCompleteFrameSource => SRealization::Simulated,
            EndpointFactory::FitsCompleteFrameSource => SRealization::Fits,
            EndpointFactory::FormatAgnosticDiscardSink => SRealization::Discard,
        }
    }

    proof fn lemma_kind_is_factory(self) {
    }
}

pub open spec fn simulated_source_factory() -> Seq<char> {
    "pipewireao.simulated-complete-frame"@
}

pub open spec fn fits_source_factory() -> Seq<char> {
    "api.fits.source"@
}

pub open spec fn discard_sink_factory() -> Seq<char> {
    "api.pipewireao.discard"@
}

pub open spec fn fgn_graph_factory() -> Seq<char> {
    "pipewireao.fgn-native"@
}

pub open spec fn endpoint_factory_name(f: EndpointFactory) -> Seq<char> {
    match f {
        EndpointFactory::SimulatedCompleteFrameSource => simulated_source_factory(),
        EndpointFactory::FitsCompleteFrameSource => fits_source_factory(),
        EndpointFactory::FormatAgnosticDiscardSink => discard_sink_factory(),
    }
}

impl EndpointFactory {
    /// The factory name that a configuration writes for this endpoint.
    pub fn configured_name(self) -> (n: &'static str)
        ensures
            n@ == endpoint_factory_name(self),
    {
        match self {
            EndpointFactory::SimulatedCompleteFrameSource => "pipewireao.simulated-complete-frame",
            EndpointFactory::FitsCompleteFrameSource => "api.fits.source",
            EndpointFactory::FormatAgnosticDiscardSink => "api.pipewireao.discard",
        }
    }
}

/// Admitted graph factories.
#[derive(Clone, Copy, Debug, PartialEq, Eq, Structural)]
pub enum GraphFactory {
    FgnNative,
}

impl FactoryKind for GraphFactory {
    open spec fn kind(self) -> SRealization {
        SRealization::FgnNative
    }

    proof fn lemma_kind_is_factory(self) {
    }
}

impl GraphFactory {
    /// The factory name that a configuration writes for this graph.
    pub fn configured_name(self) -> (n: &'static str)
        ensures
            n@ == fgn_graph_factory(),
    {
        "pipewireao.fgn-native"
    }
}

/// How an object comes to exist in the session.
#[derive(Clone, Copy, Debug, PartialEq, Eq)]
pub enum ObjectRealization<F> {
    /// Created and owned by the runner through an admitted factory.
    Factory(F),
    /// Owned elsewhere and selected by its PipeWire node name and port contract.
    External,
}

pub open spec fn realization_view<F: FactoryKind>(r: ObjectRealization<F>) -> SRealization {
    match r {
        ObjectRealization::Factory(f) => f.kind(),
        ObjectRealization::External => SRealization::External,
    }
}

impl<F: FactoryKind> ObjectRealization<F> {
    pub fn is_external(&self) -> (r: bool)
        ensures
            r == (realization_view(*self) == SRealization::External),
    {
        match self {
            ObjectRealization::Factory(f) => {
                proof {
                    f.lemma_kind_is_factory();
                }
                false
            },
            ObjectRealization::External => true,
        }
    }
}


/// The direction of a scientific port.
#[derive(Clone, Copy, Debug, PartialEq, Eq, Structural)]
pub enum PortDirection {
    Input,
    Output,
}

/// A declared scientific port: its name, direction and ndarray contract.
#[derive(Debug, PartialEq, Eq)]
pub struct PortSpec {
    pub name: String,
    pub direction: PortDirection,
    pub element_type: String,
    pub shape: Vec<u32>,
    pub schema: String,
}

pub struct SPort {
    pub name: Seq<char>,
    pub direction: PortDirection,
    pub element_type: Seq<char>,
    pub shape: Seq<u32>,
    pub schema: Seq<char>,
}

impl View for PortSpec {
    type V = SPort;

    open spec fn view(&self) -> SPort {
        SPort {
            name: self.name@,
            direction: self.direction,
            element_type: self.element_type@,
            shape: self.shape@,
            schema: self.schema@,
        }
    }
}

pub open spec fn opt_text(o: Option<String>) -> Option<Seq<char>> {
    match o {
        Some(s) => Some(s@),
        None => None,
    }
}

pub open spec fn pairs_view(p: Seq<(String, String)>) -> Seq<(Seq<char>, Seq<char>)> {
    Seq::new(p.len(), |i: int| (p[i].0@, p[i].1@))
}

pub open spec fn texts_view(p: Seq<String>) -> Seq<Seq<char>> {
    Seq::new(p.len(), |i: int| p[i]@)
}

pub open spec fn ports_view(p: Seq<PortSpec>) -> Seq<SPort> {
    Seq::new(p.len(), |i: int| p[i]@)
}

/// One admitted PipeWire object at a session boundary.
///
/// `configuration_path` names an already-authored standard PipeWire module-argument
/// file; the runner never parses or regenerates the graph body it holds.
#[derive(Debug, PartialEq, Eq)]
pub struct ObjectSpec<F> {
    pub realization: ObjectRealization<F>,
    pub module: Option<String>,
    pub node_name: String,
    pub plugin_path: Option<String>,
    pub configuration_path: Option<String>,
    pub arguments: Vec<(String, String)>,
    pub ports: Vec<PortSpec>,
}

pub struct SObject {
    pub realization: SRealization,
    pub module: Option<Seq<char>>,
    pub node_name: Seq<char>,
    pub plugin_path: Option<Seq<char>>,
    pub config_path: Option<Seq<char>>,
    pub args: Seq<(Seq<char>, Seq<char>)>,
    pub ports: Seq<SPort>,
}

impl<F: FactoryKind> View for ObjectSpec<F> {
    type V = SObject;

    open spec fn view(&self) -> SObject {
        SObject {
            realization: realization_view(self.realization),
            module: opt_text(self.module),
            node_name: self.node_name@,
            plugin_path: opt_text(self.plugin_path),
            config_path: opt_text(self.configuration_path),
            args: pairs_view(self.arguments@),
            ports: ports_view(self.ports@),
        }
    }
}

pub open spec fn objects_view<F: FactoryKind>(p: Seq<ObjectSpec<F>>) -> Seq<SObject> {
    Seq::new(p.len(), |i: int| p[i]@)
}

/// One declared ordinary PipeWire link between two `node:port` endpoints.
#[derive(Debug, PartialEq, Eq)]
pub struct LinkSpec {
    pub output: String,
    pub input: String,
    pub passive: bool,
}

pub struct SLink {
    pub output: Seq<char>,
    pub input: Seq<char>,
    pub passive: bool,
}

impl View for LinkSpec {
    type V = SLink;

    open spec fn view(&self) -> SLink {
        SLink { output: self.output@, input: self.input@, passive: self.passive }
    }
}

pub open spec fn links_view(p: Seq<LinkSpec>) -> Seq<SLink> {
    Seq::new(p.len(), |i: int| p[i]@)
}

/// A named set of runner-owned nodes that can be started and stopped on its own.
#[derive(Debug, PartialEq, Eq)]
pub struct ExecutionGroupSpec {
    pub name: String,
    pub nodes: Vec<String>,
}

pub struct SGroup {
    pub name: Seq<char>,
    pub nodes: Seq<Seq<char>>,
}

impl View for ExecutionGroupSpec {
    type V = SGroup;

    open spec fn view(&self) -> SGroup {
        SGroup { name: self.name@, nodes: texts_view(self.nodes@) }
    }
}

pub open spec fn groups_view(p: Seq<ExecutionGroupSpec>) -> Seq<SGroup> {
    Seq::new(p.len(), |i: int| p[i]@)
}

/// A resolved, development-only session loaded from relaxed SPA-JSON.
#[derive(Debug, PartialEq, Eq)]
pub struct DevelopmentConfig {
    pub sources: Vec<ObjectSpec<EndpointFactory>>,
    pub graphs: Vec<ObjectSpec<GraphFactory>>,
    pub sinks: Vec<ObjectSpec<EndpointFactory>>,
    pub properties: Vec<(String, String)>,
    pub parameters: Vec<(String, String)>,
    pub observations: Vec<String>,
    pub links: Vec<LinkSpec>,
    pub execution_groups: Vec<ExecutionGroupSpec>,
}

pub struct SConfig {
    pub sources: Seq<SObject>,
    pub graphs: Seq<SObject>,
    pub sinks: Seq<SObject>,
    pub properties: Seq<(Seq<char>, Seq<char>)>,
    pub parameters: Seq<(Seq<char>, Seq<char>)>,
    pub observations: Seq<Seq<char>>,
    pub links: Seq<SLink>,
    pub groups: Seq<SGroup>,
}

impl View for DevelopmentConfig {
    type V = SConfig;

    open spec fn view(&self) -> SConfig {
        SConfig {
            sources: objects_view(self.sources@),
            graphs: objects_view(self.graphs@),
            sinks: objects_view(self.sinks@),
            properties: pairs_view(self.properties@),
            parameters: pairs_view(self.parameters@),
            observations: texts_view(self.observations@),
            links: links_view(self.links@),
            groups: groups_view(self.execution_groups@),
        }
    }
}

// ----- Copies that keep the abstract content -----

pub fn clone_opt_text(o: &Option<String>) -> (r: Option<String>)
    ensures
        opt_text(r) == opt_text(*o),
{
    match o {
        Some(s) => Some(s.clone()),
        None => None,
    }
}

pub fn clone_texts(v: &Vec<String>) -> (r: Vec<String>)
    ensures
        texts_view(r@) == texts_view(v@),
{
    let mut r: Vec<String> = Vec::new();
    let mut i: usize = 0;
    while i < v.len()
        invariant
            i <= v.len(),
            r.len() == i,
            forall|k: int| 0 <= k < i ==> r@[k]@ == v@[k]@,
        decreases v.len() - i,
    {
        r.push(v[i].clone());
        i = i + 1;
    }
    assert(texts_view(r@) =~= texts_view(v@));
    r
}

pub fn clone_pairs(v: &Vec<(String, String)>) -> (r: Vec<(String, String)>)
    ensures
        pairs_view(r@) == pairs_view(v@),
{
    let mut r: Vec<(String, String)> = Vec::new();
    let mut i: usize = 0;
    while i < v.len()
        invariant
            i <= v.len(),
            r.len() == i,
            forall|k: int| 0 <= k < i ==> r@[k].0@ == v@[k].0@ && r@[k].1@ == v@[k].1@,
        decreases v.len() - i,
    {
        r.push((v[i].0.clone(), v[i].1.clone()));
        i = i + 1;
    }
    assert(pairs_view(r@) =~= pairs_view(v@));
    r
}

pub fn clone_shape(v: &Vec<u32>) -> (r: Vec<u32>)
    ensures
        r@ == v@,
{
    let mut r: Vec<u32> = Vec::new();
    let mut i: usize = 0;
    while i < v.len()
        invariant
            i <= v.len(),
            r@ == v@.take(i as int),
        decreases v.len() - i,
    {
        r.push(v[i]);
        i = i + 1;
        assert(r@ =~= v@.take(i as int));
    }
    assert(v@.take(v.len() as int) =~= v@);
    r
}

impl PortSpec {
    pub fn duplicate(&self) -> (r: PortSpec)
        ensures
            r@ == self@,
    {
        PortSpec {
            name: self.name.clone(),
            direction: self.direction,
            element_type: self.element_type.clone(),
            shape: clone_shape(&self.shape),
            schema: self.schema.clone(),
        }
    }
}

pub fn clone_ports(v: &Vec<PortSpec>) -> (r: Vec<PortSpec>)
    ensures
        ports_view(r@) == ports_view(v@),
{
    let mut r: Vec<PortSpec> = Vec::new();
    let mut i: usize = 0;
    while i < v.len()
        invariant
            i <= v.len(),
            r.len() == i,
            forall|k: int| 0 <= k < i ==> r@[k]@ == v@[k]@,
        decreases v.len() - i,
    {
        r.push(v[i].duplicate());
        i = i + 1;
    }
    assert(ports_view(r@) =~= ports_view(v@));
    r
}

impl<F: FactoryKind> ObjectSpec<F> {
    pub fn duplicate(&self) -> (r: ObjectSpec<F>)
        ensures
            r@ == self@,
    {
        ObjectSpec {
            realization: self.realization,
            module: clone_opt_text(&self.module),
            node_name: self.node_name.clone(),
            plugin_path: clone_opt_text(&self.plugin_path),
            configuration_path: clone_opt_text(&self.configuration_path),
            arguments: clone_pairs(&self.arguments),
            ports: clone_ports(&self.ports),
        }
    }
}

pub fn clone_objects<F: FactoryKind>(v: &Vec<ObjectSpec<F>>) -> (r: Vec<ObjectSpec<F>>)
    ensures
        objects_view(r@) == objects_view(v@),
{
    let mut r: Vec<ObjectSpec<F>> = Vec::new();
    let mut i: usize = 0;
    while i < v.len()
        invariant
            i <= v.len(),
            r.len() == i,
            forall|k: int| 0 <= k < i ==> r@[k]@ == v@[k]@,
        decreases v.len() - i,
    {
        r.push(v[i].duplicate());
        i = i + 1;
    }
    assert(objects_view(r@) =~= objects_view(v@));
    r
}

impl LinkSpec {
    pub fn duplicate(&self) -> (r: LinkSpec)
        ensures
            r@ == self@,
    {
        LinkSpec { output: self.output.clone(), input: self.input.clone(), passive: self.passive }
    }
}

pub fn clone_links(v: &Vec<LinkSpec>) -> (r: Vec<LinkSpec>)
    ensures
        links_view(r@) == links_view(v@),
{
    let mut r: Vec<LinkSpec> = Vec::new();
    let mut i: usize = 0;
    while i < v.len()
        invariant
            i <= v.len(),
            r.len() == i,
            forall|k: int| 0 <= k < i ==> r@[k]@ == v@[k]@,
        decreases v.len() - i,
    {
        r.push(v[i].duplicate());
        i = i + 1;
    }
    assert(links_view(r@) =~= links_view(v@));
    r
}

impl ExecutionGroupSpec {
    pub fn duplicate(&self) -> (r: ExecutionGroupSpec)
        ensures
            r@ == self@,
    {
        ExecutionGroupSpec { name: self.name.clone(), nodes: clone_texts(&self.nodes) }
    }
}

pub fn clone_groups(v: &Vec<ExecutionGroupSpec>) -> (r: Vec<ExecutionGroupSpec>)
    ensures
        groups_view(r@) == groups_view(v@),
{
    let mut r: Vec<ExecutionGroupSpec> = Vec::new();
    let mut i: usize = 0;
    while i < v.len()
        invariant
            i <= v.len(),
            r.len() == i,
            forall|k: int| 0 <= k < i ==> r@[k]@ == v@[k]@,
        decreases v.len() - i,
    {
        r.push(v[i].duplicate());
        i = i + 1;
    }
    assert(groups_view(r@) =~= groups_view(v@));
    r
}

impl DevelopmentConfig {
    /// A copy of the configuration with the same content.
    pub fn duplicate(&self) -> (r: DevelopmentConfig)
        ensures
            r@ == self@,
    {
        DevelopmentConfig {
            sources: clone_objects(&self.sources),
            graphs: clone_objects(&self.graphs),
            sinks: clone_objects(&self.sinks),
            properties: clone_pairs(&self.properties),
            parameters: clone_pairs(&self.parameters),
            observations: clone_texts(&self.observations),
            links: clone_links(&self.links),
            execution_groups: clone_groups(&self.execution_groups),
        }
    }
}

impl Clone for DevelopmentConfig {
    fn clone(&self) -> (r: Self)
        ensures
            r@ == self@,
    {
        self.duplicate()
    }
}

impl Clone for PortSpec {
    fn clone(&self) -> (r: Self)
        ensures
            r@ == self@,
    {
        self.duplicate()
    }
}

impl Clone for LinkSpec {
    fn clone(&self) -> (r: Self)
        ensures
            r@ == self@,
    {
        self.duplicate()
    }
}

impl Clone for ExecutionGroupSpec {
    fn clone(&self) -> (r: Self)
        ensures
            r@ == self@,
    {
        self.duplicate()
    }
}

impl<F: FactoryKind> Clone for ObjectSpec<F> {
    fn clone(&self) -> (r: Self)
        ensures
            r@ == self@,
    {
        self.duplicate()
    }
}

} // verus!
