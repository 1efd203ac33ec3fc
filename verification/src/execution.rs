//! How the model is to be executed.

use vstd::prelude::*;

verus! {

/// Hardware acceleration options. The processor is the default and the most
/// reliable; every other provider falls back to it.
#[derive(Clone, Copy, Debug, PartialEq, Eq, Structural)]
pub enum ExecutionProvider {
    Cpu,
    Cuda,
    TensorRT,
    CoreML,
    DirectML,
    MIGraphX,
    OpenVINO,
    WebGPU,
    NNAPI,
}

impl Default for ExecutionProvider {
    fn default() -> (r: Self)
        ensures
            r == ExecutionProvider::Cpu,
    {
        ExecutionProvider::Cpu
    }
}

impl ExecutionProvider {
    /// The provider's name.
    pub open spec fn name_text(self) -> Seq<char> {
        match self {
            ExecutionProvider::Cpu => "Cpu"@,
            ExecutionProvider::Cuda => "Cuda"@,
            ExecutionProvider::TensorRT => "TensorRT"@,
            ExecutionProvider::CoreML => "CoreML"@,
            ExecutionProvider::DirectML => "DirectML"@,
            ExecutionProvider::MIGraphX => "MIGraphX"@,
            ExecutionProvider::OpenVINO => "OpenVINO"@,
            ExecutionProvider::WebGPU => "WebGPU"@,
            ExecutionProvider::NNAPI => "NNAPI"@,
        }
    }

    /// The provider's name.
    pub fn name(&self) -> (r: &'static str)
        ensures
            r@ == self.name_text(),
    {
        match self {
            ExecutionProvider::Cpu => "Cpu",
            ExecutionProvider::Cuda => "Cuda",
            ExecutionProvider::TensorRT => "TensorRT",
            ExecutionProvider::CoreML => "CoreML",
            ExecutionProvider::DirectML => "DirectML",
            ExecutionProvider::MIGraphX => "MIGraphX",
            ExecutionProvider::OpenVINO => "OpenVINO",
            ExecutionProvider::WebGPU => "WebGPU",
            ExecutionProvider::NNAPI => "NNAPI",
        }
    }
}

/// Whether the runtime optimizes the graph that it loads.
#[derive(Clone, Copy, Debug, PartialEq, Eq, Structural)]
pub enum GraphOptimizationPolicy {
    /// Apply every optimization.
    All,
    /// Load the graph as it is, because it is already optimized.
    Disable,
}

/// One provider that a session is to try.
#[derive(Clone, Copy, Debug, PartialEq, Eq, Structural)]
pub struct ProviderEntry {
    pub provider: ExecutionProvider,
    /// Whether the session fails where this provider cannot be used.
    pub error_on_failure: bool,
    /// Whether the provider keeps its compiled models in the configured directory.
    pub uses_model_cache: bool,
}

/// One step in setting up a session.
#[derive(Clone, Copy, Debug, PartialEq, Eq, Structural)]
pub enum SessionStep {
    OptimizationLevel(GraphOptimizationPolicy),
    IntraThreads(usize),
    InterThreads(usize),
    VerboseLogging,
    LogVerbosity(i32),
    /// Try the first provider, then the second.
    ExecutionProviders(ProviderEntry, ProviderEntry),
    /// Run the configured customization.
    CustomConfigure,
}

/// Execution settings, for paths of type `P` and customizations of type `C`.
#[derive(Clone)]
pub struct ModelConfig<P, C> {
    pub execution_provider: ExecutionProvider,
    pub intra_threads: usize,
    pub inter_threads: usize,
    /// A last customization of every session.
    pub configure: Option<C>,
    pub ort_profile_dir: Option<P>,
    pub ort_profile_session: Option<String>,
    /// Where optimized models are kept, to load faster the next time.
    pub ort_optimized_model_cache_dir: Option<P>,
    /// Where compiled CoreML models are kept. Only used with that provider.
    pub coreml_cache_dir: Option<P>,
}

impl<P, C> Default for ModelConfig<P, C> {
    fn default() -> (r: Self)
        ensures
            r.is_initial(),
    {
        ModelConfig {
            execution_provider: ExecutionProvider::Cpu,
            intra_threads: 4,
            inter_threads: 1,
            configure: None,
            ort_profile_dir: None,
            ort_profile_session: None,
            ort_optimized_model_cache_dir: None,
            coreml_cache_dir: None,
        }
    }
}

/// The processor entry behind an accelerator: the session fails without it.
pub open spec fn processor_entry() -> ProviderEntry {
    ProviderEntry {
        provider: ExecutionProvider::Cpu,
        error_on_failure: true,
        uses_model_cache: false,
    }
}

impl<P, C> ModelConfig<P, C> {
    /// The settings that hold where nothing was chosen.
    pub open spec fn is_initial(self) -> bool {
        &&& self.execution_provider == ExecutionProvider::Cpu
        &&& self.intra_threads == 4
        &&& self.inter_threads == 1
        &&& self.configure is None
        &&& self.ort_profile_dir is None
        &&& self.ort_profile_session is None
        &&& self.ort_optimized_model_cache_dir is None
        &&& self.coreml_cache_dir is None
    }

    /// The accelerator's entry: it may fail, and it uses the model cache only where
    /// it is CoreML and a directory is set.
    pub open spec fn accelerator_entry(self) -> ProviderEntry {
        ProviderEntry {
            provider: self.execution_provider,
            error_on_failure: false,
            uses_model_cache: self.execution_provider == ExecutionProvider::CoreML
                && self.coreml_cache_dir is Some,
        }
    }

    /// The steps that set up a session under these settings.
    pub open spec fn session_steps(self, optimization: GraphOptimizationPolicy) -> Seq<SessionStep> {
        seq![
            SessionStep::OptimizationLevel(optimization),
            SessionStep::IntraThreads(self.intra_threads),
            SessionStep::InterThreads(self.inter_threads),
        ] + (if self.ort_profile_dir is Some {
            seq![SessionStep::VerboseLogging, SessionStep::LogVerbosity(1)]
        } else {
            Seq::empty()
        }) + (if self.execution_provider == ExecutionProvider::Cpu {
            Seq::empty()
        } else {
            seq![SessionStep::ExecutionProviders(self.accelerator_entry(), processor_entry())]
        }) + (if self.configure is Some {
            seq![SessionStep::CustomConfigure]
        } else {
            Seq::empty()
        })
    }

    /// The settings that hold where nothing is chosen.
    pub fn new() -> (r: Self)
        ensures
            r.is_initial(),
    {
        Self::default()
    }

    pub fn with_execution_provider(self, provider: ExecutionProvider) -> (r: Self)
        ensures
            r == (ModelConfig { execution_provider: provider, ..self }),
    {
        ModelConfig { execution_provider: provider, ..self }
    }

    pub fn with_intra_threads(self, threads: usize) -> (r: Self)
        ensures
            r == (ModelConfig { intra_threads: threads, ..self }),
    {
        ModelConfig { intra_threads: threads, ..self }
    }

    pub fn with_inter_threads(self, threads: usize) -> (r: Self)
        ensures
            r == (ModelConfig { inter_threads: threads, ..self }),
    {
        ModelConfig { inter_threads: threads, ..self }
    }

    /// Sets the customization that runs last on every session.
    pub fn with_custom_configure(self, configure: C) -> (r: Self)
        ensures
            r == (ModelConfig { configure: Some(configure), ..self }),
    {
        ModelConfig { configure: Some(configure), ..self }
    }

    /// Sets the directory for compiled CoreML models.
    pub fn with_coreml_cache_dir(self, path: P) -> (r: Self)
        ensures
            r == (ModelConfig { coreml_cache_dir: Some(path), ..self }),
    {
        ModelConfig { coreml_cache_dir: Some(path), ..self }
    }

    /// Turns profiling on, with the directory and the session name of its files.
    pub fn with_ort_profiling(self, profile_dir: P, session_name: String) -> (r: Self)
        ensures
            r == (ModelConfig {
                ort_profile_dir: Some(profile_dir),
                ort_profile_session: Some(session_name),
                ..self
            }),
    {
        ModelConfig {
            ort_profile_dir: Some(profile_dir),
            ort_profile_session: Some(session_name),
            ..self
        }
    }

    /// Sets the directory for optimized models.
    pub fn with_ort_optimized_model_cache_dir(self, path: P) -> (r: Self)
        ensures
            r == (ModelConfig { ort_optimized_model_cache_dir: Some(path), ..self }),
    {
        ModelConfig { ort_optimized_model_cache_dir: Some(path), ..self }
    }

    /// The directory and the name of the file that holds the profile of `component`,
    /// where profiling is on.
    pub fn ort_profile_path(&self, component: &str) -> (r: Option<(&P, String)>)
        ensures
            r is Some <==> self.ort_profile_dir is Some && self.ort_profile_session is Some,
            r matches Some((dir, file)) ==> {
                &&& *dir == self.ort_profile_dir->0
                &&& file@ == self.ort_profile_session->0@ + "-"@ + component@ + ".json"@
            },
    {
        match (&self.ort_profile_dir, &self.ort_profile_session) {
            (Some(dir), Some(session)) => {
                let mut file = session.clone();
                file.append("-");
                file.append(component);
                file.append(".json");
                Some((dir, file))
            },
            _ => None,
        }
    }

    /// The directory for optimized models, where one is set.
    pub fn ort_optimized_model_cache_dir(&self) -> (r: Option<&P>)
        ensures
            r is Some <==> self.ort_optimized_model_cache_dir is Some,
            r matches Some(dir) ==> *dir == self.ort_optimized_model_cache_dir->0,
    {
        match &self.ort_optimized_model_cache_dir {
            Some(dir) => Some(dir),
            None => None,
        }
    }

    /// How the customization is shown: by a stand-in, since it has no text of its own.
    pub fn configure_label(&self) -> (r: &'static str)
        ensures
            r@ == (if self.configure is Some {
                "<fn>"@
            } else {
                "None"@
            }),
    {
        if self.configure.is_some() {
            "<fn>"
        } else {
            "None"
        }
    }

    /// The steps for a session on a model as it was shipped.
    pub fn apply_to_session_builder(&self) -> (r: Vec<SessionStep>)
        ensures
            r@ == self.session_steps(GraphOptimizationPolicy::All),
    {
        self.apply_to_session_builder_with_optimization(GraphOptimizationPolicy::All)
    }

    /// The steps for a session on a model that was optimized before.
    pub fn apply_to_session_builder_for_cached_model(&self) -> (r: Vec<SessionStep>)
        ensures
            r@ == self.session_steps(GraphOptimizationPolicy::Disable),
    {
        self.apply_to_session_builder_with_optimization(GraphOptimizationPolicy::Disable)
    }

    /// The steps that set up a session under these settings.
    pub fn apply_to_session_builder_with_optimization(
        &self,
        optimization: GraphOptimizationPolicy,
    ) -> (r: Vec<SessionStep>)
        ensures
            r@ == self.session_steps(optimization),
    {
        let mut r: Vec<SessionStep> = Vec::new();
        r.push(SessionStep::OptimizationLevel(optimization));
        r.push(SessionStep::IntraThreads(self.intra_threads));
        r.push(SessionStep::InterThreads(self.inter_threads));
        if self.ort_profile_dir.is_some() {
            r.push(SessionStep::VerboseLogging);
            r.push(SessionStep::LogVerbosity(1));
        }
        if self.execution_provider != ExecutionProvider::Cpu {
            let accelerator = ProviderEntry {
                provider: self.execution_provider,
                error_on_failure: false,
                uses_model_cache: self.execution_provider == ExecutionProvider::CoreML
                    && self.coreml_cache_dir.is_some(),
            };
            let processor = ProviderEntry {
                provider: ExecutionProvider::Cpu,
                error_on_failure: true,
                uses_model_cache: false,
            };
            r.push(SessionStep::ExecutionProviders(accelerator, processor));
        }
        if self.configure.is_some() {
            r.push(SessionStep::CustomConfigure);
        }
        assert(r@ =~= self.session_steps(optimization));
        r
    }
}

/// Every accelerator falls back to the processor: whichever providers a session
/// is told to use, the processor is the last of them and the only one that must
/// not fail.
pub proof fn accelerators_fall_back_to_the_processor<P, C>(
    config: ModelConfig<P, C>,
    optimization: GraphOptimizationPolicy,
    i: int,
)
    requires
        0 <= i < config.session_steps(optimization).len(),
    ensures
        config.session_steps(optimization)[i] matches SessionStep::ExecutionProviders(first, last)
            ==> {
            &&& first.provider == config.execution_provider
            &&& !first.error_on_failure
            &&& last.provider == ExecutionProvider::Cpu
            &&& last.error_on_failure
        },
{
}

/// A session registers providers exactly where an accelerator was chosen, and
/// the directory for compiled models plays a part with CoreML alone.
pub proof fn only_coreml_uses_the_model_cache<P, C>(
    config: ModelConfig<P, C>,
    optimization: GraphOptimizationPolicy,
)
    ensures
        config.session_steps(optimization).contains(
            SessionStep::ExecutionProviders(config.accelerator_entry(), processor_entry()),
        ) <==> config.execution_provider != ExecutionProvider::Cpu,
        config.accelerator_entry().uses_model_cache ==> config.execution_provider
            == ExecutionProvider::CoreML && config.coreml_cache_dir is Some,
{
    let steps = config.session_steps(optimization);
    if config.execution_provider != ExecutionProvider::Cpu {
        let at: int = if config.ort_profile_dir is Some {
            5
        } else {
            3
        };
        assert(steps[at] == SessionStep::ExecutionProviders(
            config.accelerator_entry(),
            processor_entry(),
        ));
    }
}

/// A customization, where there is one, runs last.
pub proof fn customization_runs_last<P, C>(
    config: ModelConfig<P, C>,
    optimization: GraphOptimizationPolicy,
)
    requires
        config.configure is Some,
    ensures
        config.session_steps(optimization).last() == SessionStep::CustomConfigure,
{
}

/// The steps of a session stand in their order: the optimization and the two numbers of
/// threads, the logging of a profile, the accelerator with the processor behind it, and the
/// customization. What was not chosen has no step.
pub proof fn steps_stand_in_their_order<P, C>(
    config: &ModelConfig<P, C>,
    optimization: GraphOptimizationPolicy,
    r: Vec<SessionStep>,
)
    requires
        call_ensures(
            ModelConfig::<P, C>::apply_to_session_builder_with_optimization,
            (config, optimization),
            r,
        ),
    ensures
        ({
            let profiled: int = if config.ort_profile_dir is Some {
                2
            } else {
                0
            };
            let accelerated: int = if config.execution_provider is Cpu {
                0
            } else {
                1
            };
            let customized: int = if config.configure is Some {
                1
            } else {
                0
            };
            &&& r@.len() == 3 + profiled + accelerated + customized
            &&& r@[0] == SessionStep::OptimizationLevel(optimization)
            &&& r@[1] == SessionStep::IntraThreads(config.intra_threads)
            &&& r@[2] == SessionStep::InterThreads(config.inter_threads)
            &&& profiled == 2 ==> r@[3] == SessionStep::VerboseLogging && r@[4]
                == SessionStep::LogVerbosity(1)
            &&& accelerated == 1 ==> (r@[3 + profiled] matches SessionStep::ExecutionProviders(
                first,
                last,
            ) && {
                &&& first.provider == config.execution_provider
                &&& !first.error_on_failure
                &&& first.uses_model_cache <==> config.execution_provider is CoreML
                    && config.coreml_cache_dir is Some
                &&& last.provider is Cpu
                &&& last.error_on_failure
                &&& !last.uses_model_cache
            })
            &&& customized == 1 ==> r@[r@.len() - 1] == SessionStep::CustomConfigure
        }),
{
}

/// A model as it was shipped is optimized, and one that was optimized before is not; apart
/// from that their sessions are set up alike.
pub proof fn only_shipped_models_are_optimized<P, C>(
    config: &ModelConfig<P, C>,
    shipped: Vec<SessionStep>,
    cached: Vec<SessionStep>,
)
    requires
        call_ensures(ModelConfig::<P, C>::apply_to_session_builder, (config,), shipped),
        call_ensures(
            ModelConfig::<P, C>::apply_to_session_builder_for_cached_model,
            (config,),
            cached,
        ),
    ensures
        shipped@.len() == cached@.len(),
        shipped@[0] == SessionStep::OptimizationLevel(GraphOptimizationPolicy::All),
        cached@[0] == SessionStep::OptimizationLevel(GraphOptimizationPolicy::Disable),
        forall|i: int| 0 < i < shipped@.len() ==> #[trigger] shipped@[i] == cached@[i],
        shipped@ == config.session_steps(GraphOptimizationPolicy::All),
{
}

/// Where nothing is chosen the processor runs four threads within an operator and one
/// between them, and nothing else is set.
pub proof fn nothing_is_set_at_first<P, C>(r: ModelConfig<P, C>)
    requires
        call_ensures(ModelConfig::<P, C>::new, (), r),
    ensures
        r.execution_provider is Cpu,
        r.intra_threads == 4,
        r.inter_threads == 1,
        r.configure is None,
        r.ort_profile_dir is None,
        r.ort_profile_session is None,
        r.ort_optimized_model_cache_dir is None,
        r.coreml_cache_dir is None,
{
}

/// All settings but those of the provider and the threads are the same.
pub open spec fn same_paths<P, C>(a: ModelConfig<P, C>, b: ModelConfig<P, C>) -> bool {
    &&& a.configure == b.configure
    &&& a.ort_profile_dir == b.ort_profile_dir
    &&& a.ort_profile_session == b.ort_profile_session
    &&& a.ort_optimized_model_cache_dir == b.ort_optimized_model_cache_dir
    &&& a.coreml_cache_dir == b.coreml_cache_dir
}

/// The settings of the provider and the threads are the same.
pub open spec fn same_engine<P, C>(a: ModelConfig<P, C>, b: ModelConfig<P, C>) -> bool {
    &&& a.execution_provider == b.execution_provider
    &&& a.intra_threads == b.intra_threads
    &&& a.inter_threads == b.inter_threads
}

/// Choosing the provider or a number of threads sets that and nothing else.
pub proof fn engine_settings_are_set_one_by_one<P, C>(
    config: ModelConfig<P, C>,
    provider: ExecutionProvider,
    threads: usize,
    a: ModelConfig<P, C>,
    b: ModelConfig<P, C>,
    c: ModelConfig<P, C>,
)
    requires
        call_ensures(ModelConfig::<P, C>::with_execution_provider, (config, provider), a),
        call_ensures(ModelConfig::<P, C>::with_intra_threads, (config, threads), b),
        call_ensures(ModelConfig::<P, C>::with_inter_threads, (config, threads), c),
    ensures
        same_paths(a, config) && same_paths(b, config) && same_paths(c, config),
        a.execution_provider == provider,
        a.intra_threads == config.intra_threads && a.inter_threads == config.inter_threads,
        b.intra_threads == threads,
        b.execution_provider == config.execution_provider && b.inter_threads
            == config.inter_threads,
        c.inter_threads == threads,
        c.execution_provider == config.execution_provider && c.intra_threads
            == config.intra_threads,
{
}

/// Choosing a customization or a directory sets that and nothing else.
pub proof fn paths_are_set_one_by_one<P, C>(
    config: ModelConfig<P, C>,
    configure: C,
    path: P,
    session: String,
    a: ModelConfig<P, C>,
    b: ModelConfig<P, C>,
    c: ModelConfig<P, C>,
    d: ModelConfig<P, C>,
)
    requires
        call_ensures(ModelConfig::<P, C>::with_custom_configure, (config, configure), a),
        call_ensures(ModelConfig::<P, C>::with_coreml_cache_dir, (config, path), b),
        call_ensures(ModelConfig::<P, C>::with_ort_profiling, (config, path, session), c),
        call_ensures(ModelConfig::<P, C>::with_ort_optimized_model_cache_dir, (config, path), d),
    ensures
        same_engine(a, config) && same_engine(b, config) && same_engine(c, config),
        same_engine(d, config),
        a.configure == Some(configure),
        same_paths((ModelConfig { configure: config.configure, ..a }), config),
        b.coreml_cache_dir == Some(path),
        same_paths((ModelConfig { coreml_cache_dir: config.coreml_cache_dir, ..b }), config),
        c.ort_profile_dir == Some(path) && c.ort_profile_session == Some(session),
        c.configure == config.configure && c.coreml_cache_dir == config.coreml_cache_dir
            && c.ort_optimized_model_cache_dir == config.ort_optimized_model_cache_dir,
        d.ort_optimized_model_cache_dir == Some(path),
        same_paths(
            (ModelConfig {
                ort_optimized_model_cache_dir: config.ort_optimized_model_cache_dir,
                ..d
            }),
            config,
        ),
{
}

/// A profile is named after its session and its component, and is written only where
/// profiling is on. The directory for optimized models is given back as it was set.
pub proof fn profiles_are_named_after_their_session<P, C>(
    config: &ModelConfig<P, C>,
    component: &str,
    profile: Option<(&P, String)>,
    dir: Option<&P>,
    label: &'static str,
)
    requires
        call_ensures(ModelConfig::<P, C>::ort_profile_path, (config, component), profile),
        call_ensures(ModelConfig::<P, C>::ort_optimized_model_cache_dir, (config,), dir),
        call_ensures(ModelConfig::<P, C>::configure_label, (config,), label),
    ensures
        profile is Some <==> config.ort_profile_dir is Some && config.ort_profile_session is Some,
        profile matches Some((dir, file)) ==> {
            &&& Some(*dir) == config.ort_profile_dir
            &&& file@ == config.ort_profile_session->0@ + "-"@ + component@ + ".json"@
        },
        dir is Some <==> config.ort_optimized_model_cache_dir is Some,
        dir matches Some(dir) ==> Some(*dir) == config.ort_optimized_model_cache_dir,
        config.configure is Some ==> label@ == "<fn>"@,
        config.configure is None ==> label@ == "None"@,
{
}

/// Every provider has its name.
pub proof fn providers_are_named(provider: &ExecutionProvider, name: &'static str)
    requires
        call_ensures(ExecutionProvider::name, (provider,), name),
    ensures
        *provider is Cpu ==> name@ == "Cpu"@,
        *provider is Cuda ==> name@ == "Cuda"@,
        *provider is TensorRT ==> name@ == "TensorRT"@,
        *provider is CoreML ==> name@ == "CoreML"@,
        *provider is DirectML ==> name@ == "DirectML"@,
        *provider is MIGraphX ==> name@ == "MIGraphX"@,
        *provider is OpenVINO ==> name@ == "OpenVINO"@,
        *provider is WebGPU ==> name@ == "WebGPU"@,
        *provider is NNAPI ==> name@ == "NNAPI"@,
{
}

/// The processor is the provider where none is chosen, and the settings are those of
/// [`ModelConfig::new`].
pub proof fn the_processor_is_the_default<P, C>(
    provider: ExecutionProvider,
    config: ModelConfig<P, C>,
)
    requires
        call_ensures(<ExecutionProvider as Default>::default, (), provider),
        call_ensures(<ModelConfig<P, C> as Default>::default, (), config),
    ensures
        provider is Cpu,
        config.execution_provider is Cpu,
        config.intra_threads == 4 && config.inter_threads == 1,
        config.configure is None && config.coreml_cache_dir is None,
        config.ort_profile_dir is None && config.ort_profile_session is None,
        config.ort_optimized_model_cache_dir is None,
{
}

} // verus!
