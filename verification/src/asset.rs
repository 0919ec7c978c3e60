//! The assets of the application.
use vstd::prelude::*;

use crate::config::{EmbeddedAsset, FrontendDist};
use crate::manager::AppManager;
use crate::path::{join, strip_root, PartView, PathComponent};

verus! {

/// An asset as it is handed to the frontend.
#[derive(PartialEq, Eq, Debug)]
pub struct Asset {
    pub bytes: Vec<u8>,
    pub mime_type: String,
    /// The content security policy that belongs to the asset.
    pub csp_header: Option<String>,
}

/// Where an asset is to be looked for.
#[derive(PartialEq, Eq, Debug)]
pub enum AssetRequest {
    /// In a file. Its type is told from its bytes and from the path that was asked for.
    ReadFile { file: Vec<PathComponent>, path: String },
    /// Among the assets that the application carries.
    Embedded { path: String },
}

/// What was found there.
#[derive(PartialEq, Eq, Debug)]
pub enum AssetAnswer {
    /// The bytes of the file and its type.
    File { bytes: Vec<u8>, mime_type: String },
    /// The file could not be read.
    Unreadable,
    /// The asset, if there is one.
    Embedded(Option<Asset>),
}

/// The asset resolver is a helper to access the assets.
#[derive(Clone, Copy)]
pub struct AssetResolver<'a> {
    pub manager: &'a AppManager,
}

/// The directory of the frontend, if assets are read from it: during development, where the
/// frontend comes from a URL.
pub open spec fn read_directory(manager: AppManager) -> Option<Seq<PartView>> {
    match manager.config.build.frontend_dist {
        Some(FrontendDist::Directory(dist)) if manager.target.dev
            && manager.config.build.dev_url is Some => Some(
            match manager.config_parent {
                Some(parent) => crate::path::joined(
                    crate::path::parts(parent@),
                    crate::path::parts(dist@),
                    manager.target.is_windows(),
                ),
                None => crate::path::parts(dist@),
            },
        ),
        _ => None,
    }
}

/// Whether a request is the one for `path`, which consists of `components`.
pub open spec fn requests(
    manager: AppManager,
    path: String,
    components: Seq<PartView>,
    request: AssetRequest,
) -> bool {
    match read_directory(manager) {
        Some(directory) => {
            &&& request matches AssetRequest::ReadFile { file, path: asked }
            &&& asked == path
            &&& crate::path::parts(file@) == crate::path::joined(
                directory,
                crate::path::without_root(components),
                manager.target.is_windows(),
            )
        },
        None => request == AssetRequest::Embedded { path },
    }
}

/// The components of a path.
///
/// Calls `std::path::Path::components`. A path is claimed to consist of its root, if it begins with
/// a separator, and of the pieces between its separators, where empty ones do not count, nor `.` but
/// at the beginning, and `..` leads to the parent. Every system separates at slashes, and Windows at
/// backslashes too. Only where the second place holds a colon, or the first two hold separators, may
/// a drive or a share come first: the beginning of the path, which a drive takes two places of. What
/// follows it is claimed to be taken apart in the same way where a separator comes next. Of what
/// follows a verbatim drive or share nothing is claimed, and neither of what follows a share without
/// a separator or a drive with `.`.
#[verifier::external_body]
fn components(path: &str) -> (parts: Vec<PathComponent>)
    ensures
        crate::path::taken_apart(path@, crate::path::parts(parts@)),
{
    std::path::Path::new(path).components().map(|component| match component {
        std::path::Component::Prefix(prefix) => PathComponent::Prefix {
            text: prefix.as_os_str().to_string_lossy().into_owned(),
            verbatim: prefix.kind().is_verbatim(),
        },
        std::path::Component::RootDir => PathComponent::RootDir,
        std::path::Component::CurDir => PathComponent::CurDir,
        std::path::Component::ParentDir => PathComponent::ParentDir,
        std::path::Component::Normal(name) => PathComponent::Normal(name.to_string_lossy().into_owned()),
    }).collect()
}

/// A copy of a path.
fn copy_path(path: &Vec<PathComponent>) -> (copy: Vec<PathComponent>)
    ensures
        crate::path::parts(copy@) == crate::path::parts(path@),
{
    let none: Vec<PathComponent> = Vec::new();
    let copy = join(none, path, false);
    assert(crate::path::parts(copy@) =~= crate::path::parts(path@));
    copy
}

impl<'a> AssetResolver<'a> {
    /// Gets the app asset associated with the given path.
    ///
    /// It is one that the application carries. During development, where the frontend comes from a
    /// URL, it is read from the directory of the frontend, so that the outcome is the same. Which
    /// file is meant by a path with backslashes, or by one that begins with a drive or a share, is
    /// for the system to say.
    pub fn get(&self, path: String) -> (request: AssetRequest)
        ensures
            crate::path::is_portable(path@) ==> requests(
                *self.manager,
                path,
                crate::path::parts_of(path@),
                request,
            ),
            exists|components: Seq<PartView>|
                crate::path::taken_apart(path@, components) && #[trigger] requests(
                    *self.manager,
                    path,
                    components,
                    request,
                ),
    {
        let parts = components(path.as_str());
        let ghost asked = path;
        let request = self.get_by_components(path, parts);
        proof {
            let components = crate::path::parts(parts@);
            assert(requests(*self.manager, asked, components, request));
            if crate::path::is_portable(asked@) {
                crate::path::law_portable_paths_are_taken_apart_alike(asked@, components);
            }
        }
        request
    }

    /// Gets the app asset associated with the given path, which consists of the given components.
    pub fn get_by_components(&self, path: String, components: Vec<PathComponent>) -> (request:
        AssetRequest)
        ensures
            requests(*self.manager, path, crate::path::parts(components@), request),
    {
        let manager = self.manager;
        if manager.target.dev && manager.config.build.dev_url.is_some() {
            if let Some(FrontendDist::Directory(dist)) = &manager.config.build.frontend_dist {
                let windows = manager.target.is_windows();
                let directory = match &manager.config_parent {
                    Some(parent) => join(copy_path(parent), dist, windows),
                    None => copy_path(dist),
                };
                let file = join(directory, &strip_root(&components), windows);
                return AssetRequest::ReadFile { file, path };
            }
        }
        AssetRequest::Embedded { path }
    }

    /// Iterate on all assets.
    pub fn iter(&self) -> (assets: &'a Vec<EmbeddedAsset>)
        ensures
            assets == self.manager.assets,
    {
        &self.manager.assets
    }
}

/// The asset, once it was looked for.
///
/// A file that could not be read is no asset. No content security policy belongs to one that could.
pub fn finish(answer: AssetAnswer) -> (asset: Option<Asset>)
    ensures
        asset == (match answer {
            AssetAnswer::File { bytes, mime_type } => Some(
                Asset { bytes, mime_type, csp_header: None },
            ),
            AssetAnswer::Unreadable => None,
            AssetAnswer::Embedded(asset) => asset,
        }),
{
    match answer {
        AssetAnswer::File { bytes, mime_type } => Some(
            Asset { bytes, mime_type, csp_header: None },
        ),
        AssetAnswer::Unreadable => None,
        AssetAnswer::Embedded(asset) => asset,
    }
}

/// A path without its root holds no root, and the rest of it in its order.
proof fn lemma_without_root(path: Seq<PartView>)
    ensures
        forall|i: int|
            0 <= i < crate::path::without_root(path).len() ==> !(
            #[trigger] crate::path::without_root(path)[i] is RootDir),
    decreases path.len(),
{
    if path.len() > 0 {
        lemma_without_root(path.drop_last());
    }
}

/// A root in the path that was asked for does not lead away from the directory of the frontend: on
/// systems without drives every file that is read has a path that begins with the directory.
pub proof fn law_files_are_read_behind_the_directory(
    manager: AppManager,
    path: String,
    components: Seq<PartView>,
    request: AssetRequest,
)
    requires
        requests(manager, path, components, request),
        read_directory(manager) is Some,
        !manager.target.is_windows(),
    ensures
        request is ReadFile,
        crate::path::parts(request->file@) == read_directory(manager)->0
            + crate::path::without_root(components),
{
    lemma_without_root(components);
}

/// Assets are read from files exactly in a development build whose frontend comes from a URL while
/// its directory is known. From there the path that was asked for leads on, without its root and
/// with everything else. Otherwise the asset is one that the application carries, under the path
/// that was asked for.
pub proof fn law_where_assets_come_from(
    manager: AppManager,
    path: String,
    components: Seq<PartView>,
    request: AssetRequest,
)
    requires
        requests(manager, path, components, request),
    ensures
        request is ReadFile <==> manager.target.dev && manager.config.build.dev_url is Some && (
        manager.config.build.frontend_dist matches Some(FrontendDist::Directory(_))),
        match request {
            AssetRequest::ReadFile { file, path: asked } => {
                let dist = match manager.config.build.frontend_dist {
                    Some(FrontendDist::Directory(dist)) => crate::path::parts(dist@),
                    _ => Seq::empty(),
                };
                let windows = manager.target.os is Windows;
                let directory = match manager.config_parent {
                    Some(parent) => crate::path::joined(
                        crate::path::parts(parent@),
                        dist,
                        windows,
                    ),
                    None => dist,
                };
                &&& asked == path
                &&& crate::path::parts(file@) == crate::path::joined(
                    directory,
                    components.filter(|part: PartView| !(part is RootDir)),
                    windows,
                )
            },
            AssetRequest::Embedded { path: asked } => asked == path,
        },
{
    crate::path::law_only_the_root_is_stripped(components);
}

/// On a system without drives, a path that was asked for is read behind the directory of the
/// frontend with every one of its components, in their order, whether or not it begins with a root.
pub proof fn law_every_component_is_read(
    manager: AppManager,
    path: String,
    names: Seq<PartView>,
    with_root: AssetRequest,
    without: AssetRequest,
)
    requires
        requests(manager, path, seq![PartView::RootDir] + names, with_root),
        requests(manager, path, names, without),
        forall|i: int| 0 <= i < names.len() ==> !(#[trigger] names[i] is RootDir),
        read_directory(manager) is Some,
        !(manager.target.os is Windows),
    ensures
        with_root is ReadFile,
        without is ReadFile,
        crate::path::parts(with_root->file@) == read_directory(manager)->0 + names,
        crate::path::parts(without->file@) == read_directory(manager)->0 + names,
{
    crate::path::law_what_follows_the_root_is_kept(names);
    crate::path::law_paths_lead_on_without_drives(read_directory(manager)->0, names);
}

} // verus!
