//! How an application is served: the component to render and its
//! properties, the index page that the rendered markup is placed into, the
//! directory of the static assets, and the optional configuration of
//! incremental rendering.

use crate::index_html::{split_around_root, split_index_html, IndexHtml, IndexHtmlError};
use dioxus::prelude::Component;
use dioxus_ssr::incremental::IncrementalRendererConfig;
use std::sync::Arc;
use vstd::prelude::*;
use vstd::string::*;

verus! {

/// `dioxus_ssr::incremental::IncrementalRendererConfig`, taken as an opaque
/// value: a configuration is stored and handed on, never read.
#[verifier::external_type_specification]
#[verifier::external_body]
pub struct ExIncrementalRendererConfig(IncrementalRendererConfig);

/// The options of a [`ServeConfig`], each of which can be set on its own.
///
/// `C` is the type of the root component; it is carried through unchanged.
#[derive(Clone)]
pub struct ServeConfigBuilder<P: Clone, C = Component<P>> {
    /// The root component.
    pub app: C,
    /// The properties that the root component is rendered with.
    pub props: P,
    /// The id of the element that the rendered markup is placed into.
    pub root_id: Option<&'static str>,
    /// The path of the index page.
    pub index_path: Option<&'static str>,
    /// The directory of the static assets.
    pub assets_path: Option<&'static str>,
    /// The configuration of incremental rendering, where it is turned on.
    pub incremental: Option<Arc<IncrementalRendererConfig>>,
}

/// How an application is served. Made by [`ServeConfigBuilder::build`].
#[derive(Clone)]
pub struct ServeConfig<P: Clone, C = Component<P>> {
    /// The root component.
    pub app: C,
    /// The properties that the root component is rendered with.
    pub props: P,
    /// The index page, split around the root element.
    pub index: IndexHtml,
    /// The directory of the static assets.
    pub assets_path: &'static str,
    /// The configuration of incremental rendering, where it is turned on.
    pub incremental: Option<Arc<IncrementalRendererConfig>>,
}

impl<P: Clone, C> ServeConfigBuilder<P, C> {
    /// The directory of the static assets: the one that was set, else `dist`.
    pub open spec fn resolved_assets_path(self) -> Seq<char> {
        match self.assets_path {
            Some(path) => path@,
            None => "dist"@,
        }
    }

    /// The id of the root element: the one that was set, else `main`.
    pub open spec fn resolved_root_id(self) -> Seq<char> {
        match self.root_id {
            Some(id) => id@,
            None => "main"@,
        }
    }

    /// The path of the index page: the one that was set, else `index.html` in
    /// the directory of the static assets.
    pub open spec fn resolved_index_path(self) -> Seq<char> {
        match self.index_path {
            Some(path) => path@,
            None => self.resolved_assets_path() + "/index.html"@,
        }
    }

    /// A builder for the root component `app` and its properties, with no
    /// option set.
    pub fn new(app: C, props: P) -> (builder: Self)
        ensures
            builder == (ServeConfigBuilder {
                app,
                props,
                root_id: None,
                index_path: None,
                assets_path: None,
                incremental: None,
            }),
    {
        ServeConfigBuilder {
            app,
            props,
            root_id: None,
            index_path: None,
            assets_path: None,
            incremental: None,
        }
    }

    /// Turns incremental rendering on, with this configuration.
    pub fn incremental(self, cfg: IncrementalRendererConfig) -> (builder: Self)
        ensures
            builder == (ServeConfigBuilder { incremental: Some(Arc::new(cfg)), ..self }),
    {
        let mut builder = self;
        builder.incremental = Some(Arc::new(cfg));
        builder
    }

    /// Sets the path of the index page.
    pub fn index_path(self, index_path: &'static str) -> (builder: Self)
        ensures
            builder == (ServeConfigBuilder { index_path: Some(index_path), ..self }),
    {
        let mut builder = self;
        builder.index_path = Some(index_path);
        builder
    }

    /// Sets the id of the element that the rendered markup is placed into.
    pub fn root_id(self, root_id: &'static str) -> (builder: Self)
        ensures
            builder == (ServeConfigBuilder { root_id: Some(root_id), ..self }),
    {
        let mut builder = self;
        builder.root_id = Some(root_id);
        builder
    }

    /// Sets the directory of the static assets.
    pub fn assets_path(self, assets_path: &'static str) -> (builder: Self)
        ensures
            builder == (ServeConfigBuilder { assets_path: Some(assets_path), ..self }),
    {
        let mut builder = self;
        builder.assets_path = Some(assets_path);
        builder
    }

    /// The path from which the index page is to be read.
    pub fn index_file_path(&self) -> (path: String)
        ensures
            path@ == self.resolved_index_path(),
    {
        match self.index_path {
            Some(path) => String::from_str(path),
            None => {
                let mut path = String::from_str(self.assets_path_or_default());
                path.append("/index.html");
                path
            },
        }
    }

    /// The directory of the static assets that the configuration will name.
    pub fn assets_path_or_default(&self) -> (dir: &'static str)
        ensures
            dir@ == self.resolved_assets_path(),
    {
        match self.assets_path {
            Some(path) => path,
            None => "dist",
        }
    }

    /// The id of the element around which the index page will be split.
    pub fn root_id_or_default(&self) -> (id: &'static str)
        ensures
            id@ == self.resolved_root_id(),
    {
        match self.root_id {
            Some(id) => id,
            None => "main",
        }
    }

    fn assemble(self, index: IndexHtml) -> (config: ServeConfig<P, C>)
        ensures
            config.app == self.app,
            config.props == self.props,
            config.index == index,
            config.assets_path@ == self.resolved_assets_path(),
            config.incremental == self.incremental,
    {
        let assets_path = self.assets_path_or_default();
        ServeConfig {
            app: self.app,
            props: self.props,
            index,
            assets_path,
            incremental: self.incremental,
        }
    }

    /// The configuration for these options and the text of the index page, or
    /// the reason why the page cannot be split around the root element.
    pub fn try_build(self, index_html: &str) -> (built: Result<ServeConfig<P, C>, IndexHtmlError>)
        ensures
            match built {
                Ok(config) => {
                    &&& config.app == self.app
                    &&& config.props == self.props
                    &&& config.assets_path@ == self.resolved_assets_path()
                    &&& config.incremental == self.incremental
                    &&& split_around_root(index_html@, self.resolved_root_id()) == Ok::<
                        (Seq<char>, Seq<char>),
                        IndexHtmlError,
                    >((config.index.pre_main@, config.index.post_main@))
                },
                Err(error) => split_around_root(index_html@, self.resolved_root_id()) == Err::<
                    (Seq<char>, Seq<char>),
                    IndexHtmlError,
                >(error),
            },
    {
        match split_index_html(index_html, self.root_id_or_default()) {
            Ok(index) => Ok(self.assemble(index)),
            Err(error) => Err(error),
        }
    }

    /// The configuration for these options and the text of an index page that
    /// holds the root element.
    pub fn build(self, index_html: &str) -> (config: ServeConfig<P, C>)
        requires
            split_around_root(index_html@, self.resolved_root_id()) is Ok,
        ensures
            config.app == self.app,
            config.props == self.props,
            config.assets_path@ == self.resolved_assets_path(),
            config.incremental == self.incremental,
            split_around_root(index_html@, self.resolved_root_id()) == Ok::<
                (Seq<char>, Seq<char>),
                IndexHtmlError,
            >((config.index.pre_main@, config.index.post_main@)),
    {
        let index = split_index_html(index_html, self.root_id_or_default()).unwrap();
        self.assemble(index)
    }
}

} // verus!
