//! The project that plugins are installed onto, held as a value: the files
//! below the project root, by relative path, and the three registries.
//!
//! Edits change existing files only. A file comes into being by
//! [`Project::write`], which is how assets are copied and how a caller loads
//! what is on disk.

use crate::bundle::AssetBundle;
use crate::error::{InstallError, InstallErrorView};
use crate::splice;
use crate::splice::{
    appended, bytes_of, first_occurrence, lemma_anchor_survives, lemma_bytes_of_concat,
    lemma_first_occurrence_exists, lemma_prepend_twice, lemma_stacked_replacements, occurs,
    occurs_at, prepended, replaced,
};
use crate::table::{
    distinct_keys, has_key, index_of_key, keyed, lemma_keyed_at, lemma_keyed_push, Table,
};
use vstd::prelude::*;
use vstd::slice::slice_to_vec;

verus! {

/// A database migration: a slug and a pair of forward and backward scripts.
#[derive(Debug, Clone, PartialEq, Eq)]
pub struct Migration {
    pub name: String,
    pub up_sql: String,
    pub down_sql: String,
}

/// A [`Migration`] with its texts as character sequences.
pub struct MigrationView {
    pub name: Seq<char>,
    pub up_sql: Seq<char>,
    pub down_sql: Seq<char>,
}

impl View for Migration {
    type V = MigrationView;

    open spec fn view(&self) -> MigrationView {
        MigrationView { name: self.name@, up_sql: self.up_sql@, down_sql: self.down_sql@ }
    }
}

/// The views of a list of migrations, in order.
pub open spec fn migration_views(migrations: Seq<Migration>) -> Seq<MigrationView> {
    migrations.map_values(|migration: Migration| migration@)
}

/// What a project holds.
pub struct ProjectView {
    /// File contents by path relative to the project root.
    pub files: Map<Seq<char>, Seq<u8>>,
    /// Version requirements by dependency name.
    pub dependencies: Map<Seq<char>, Seq<char>>,
    /// Migrations in the order of their creation; a migration's identifier
    /// is its index.
    pub migrations: Seq<MigrationView>,
    /// The route table: service names with their mount paths, in the order
    /// of their registration, each name once.
    pub services: Seq<(Seq<char>, Seq<char>)>,
}

impl ProjectView {
    /// A project without files and with empty registries.
    pub open spec fn empty() -> ProjectView {
        ProjectView {
            files: Map::empty(),
            dependencies: Map::empty(),
            migrations: Seq::empty(),
            services: Seq::empty(),
        }
    }

    /// The file under `path` created or overwritten with `content`.
    pub open spec fn write(self, path: Seq<char>, content: Seq<u8>) -> ProjectView {
        ProjectView { files: self.files.insert(path, content), ..self }
    }

    /// Every asset written under its path, over whatever stood there.
    pub open spec fn copy_assets(self, assets: Seq<(Seq<char>, Seq<u8>)>) -> ProjectView {
        ProjectView { files: self.files.union_prefer_right(keyed(assets)), ..self }
    }

    /// `text` put before the content of the file under `path`.
    pub open spec fn prepend(self, path: Seq<char>, text: Seq<char>) -> Result<
        ProjectView,
        InstallErrorView,
    > {
        if self.files.contains_key(path) {
            Ok(self.write(path, prepended(self.files[path], bytes_of(text))))
        } else {
            Err(InstallErrorView::FileIo { path })
        }
    }

    /// `text` put after the content of the file under `path`.
    pub open spec fn append(self, path: Seq<char>, text: Seq<char>) -> Result<
        ProjectView,
        InstallErrorView,
    > {
        if self.files.contains_key(path) {
            Ok(self.write(path, appended(self.files[path], bytes_of(text))))
        } else {
            Err(InstallErrorView::FileIo { path })
        }
    }

    /// The leftmost occurrence of `anchor` in the file under `path`
    /// exchanged for `replacement`.
    pub open spec fn replace(
        self,
        path: Seq<char>,
        anchor: Seq<char>,
        replacement: Seq<char>,
    ) -> Result<ProjectView, InstallErrorView> {
        if !self.files.contains_key(path) {
            Err(InstallErrorView::FileIo { path })
        } else if !occurs(self.files[path], bytes_of(anchor)) {
            Err(InstallErrorView::AnchorNotFound { path, anchor })
        } else {
            Ok(
                self.write(
                    path,
                    replaced(self.files[path], bytes_of(anchor), bytes_of(replacement)),
                ),
            )
        }
    }

    /// `version` recorded under the dependency `name`, in place of an
    /// earlier requirement under that name.
    pub open spec fn add_dependency(self, name: Seq<char>, version: Seq<char>) -> ProjectView {
        ProjectView { dependencies: self.dependencies.insert(name, version), ..self }
    }

    /// `migration` created after all the migrations that there are.
    pub open spec fn create_migration(self, migration: MigrationView) -> ProjectView {
        ProjectView { migrations: self.migrations.push(migration), ..self }
    }

    /// The service `name` bound to `mount_path`, at the end of the route
    /// table. A service that is bound already keeps its binding: the same
    /// mount path again changes nothing, another one is a conflict.
    pub open spec fn register_service(self, name: Seq<char>, mount_path: Seq<char>) -> Result<
        ProjectView,
        InstallErrorView,
    > {
        if !has_key(self.services, name) {
            Ok(ProjectView { services: self.services.push((name, mount_path)), ..self })
        } else if keyed(self.services)[name] == mount_path {
            Ok(self)
        } else {
            Err(InstallErrorView::RegistrationConflict { name })
        }
    }
}

/// Appending keeps the order of the calls: after two appends the file holds
/// what it held, then the first text, then the second. Equal texts are not
/// merged: appending one text twice leaves two copies.
pub proof fn lemma_appends_compose(
    project: ProjectView,
    path: Seq<char>,
    first: Seq<char>,
    second: Seq<char>,
)
    requires
        project.files.contains_key(path),
    ensures
        ({
            &&& project.append(path, first) matches Ok(once)
            &&& once.append(path, second) matches Ok(twice)
            &&& twice == project.write(
                path,
                project.files[path] + bytes_of(first) + bytes_of(second),
            )
        }),
{
    let once = project.append(path, first)->Ok_0;
    let twice = once.append(path, second)->Ok_0;
    assert(twice.files =~= project.files.insert(
        path,
        project.files[path] + bytes_of(first) + bytes_of(second),
    ));
}

/// Prepending puts the later text first: after two prepends the file holds
/// the second text, then the first, then what it held.
pub proof fn lemma_prepends_compose(
    project: ProjectView,
    path: Seq<char>,
    first: Seq<char>,
    second: Seq<char>,
)
    requires
        project.files.contains_key(path),
    ensures
        ({
            &&& project.prepend(path, first) matches Ok(once)
            &&& once.prepend(path, second) matches Ok(twice)
            &&& twice == project.write(
                path,
                bytes_of(second) + bytes_of(first) + project.files[path],
            )
        }),
{
    let once = project.prepend(path, first)->Ok_0;
    let twice = once.prepend(path, second)->Ok_0;
    lemma_prepend_twice(project.files[path], bytes_of(first), bytes_of(second));
    assert(twice.files =~= project.files.insert(
        path,
        bytes_of(second) + bytes_of(first) + project.files[path],
    ));
}

/// Two replacements at one extension point, each beginning with the anchor,
/// both succeed and both stay: the file then holds the anchor, directly
/// behind it what the later replacement brought, and behind that what the
/// earlier one brought.
pub proof fn lemma_replacements_stack(
    project: ProjectView,
    path: Seq<char>,
    anchor: Seq<char>,
    earlier_tail: Seq<char>,
    later_tail: Seq<char>,
)
    requires
        project.files.contains_key(path),
        occurs(project.files[path], bytes_of(anchor)),
    ensures
        ({
            let content = project.files[path];
            let at = first_occurrence(content, bytes_of(anchor));
            &&& project.replace(path, anchor, anchor + earlier_tail) matches Ok(once)
            &&& once.replace(path, anchor, anchor + later_tail) matches Ok(twice)
            &&& twice == project.write(
                path,
                content.subrange(0, at) + bytes_of(anchor) + bytes_of(later_tail) + bytes_of(
                    earlier_tail,
                ) + content.subrange(at + bytes_of(anchor).len(), content.len() as int),
            )
        }),
{
    let content = project.files[path];
    let mark = bytes_of(anchor);
    let at = first_occurrence(content, mark);
    lemma_first_occurrence_exists(content, mark);
    lemma_bytes_of_concat(anchor, earlier_tail);
    lemma_bytes_of_concat(anchor, later_tail);
    lemma_anchor_survives(content, mark, bytes_of(earlier_tail), at);
    lemma_stacked_replacements(content, mark, bytes_of(earlier_tail), bytes_of(later_tail), at);
    let once = project.replace(path, anchor, anchor + earlier_tail)->Ok_0;
    assert(occurs(once.files[path], mark)) by {
        assert(occurs_at(once.files[path], mark, at));
    }
    let twice = once.replace(path, anchor, anchor + later_tail)->Ok_0;
    assert(twice.files =~= project.files.insert(
        path,
        content.subrange(0, at) + mark + bytes_of(later_tail) + bytes_of(earlier_tail)
            + content.subrange(at + mark.len(), content.len() as int),
    ));
}

/// Copying overwrites: each asset of a bundle is afterwards the whole
/// content of the file under its path, whatever the file held before.
pub proof fn lemma_copy_overwrites(
    project: ProjectView,
    assets: Seq<(Seq<char>, Seq<u8>)>,
    index: int,
)
    requires
        distinct_keys(assets),
        0 <= index < assets.len(),
    ensures
        project.copy_assets(assets).files.contains_key(assets[index].0),
        project.copy_assets(assets).files[assets[index].0] == assets[index].1,
{
    lemma_keyed_at(assets, index);
}

/// Copying touches nothing but the files that the bundle names: every other
/// file stays as it is, and so do the registries.
pub proof fn lemma_copy_keeps_the_rest(
    project: ProjectView,
    assets: Seq<(Seq<char>, Seq<u8>)>,
    path: Seq<char>,
)
    requires
        !has_key(assets, path),
    ensures
        project.copy_assets(assets).files.contains_key(path) == project.files.contains_key(path),
        project.files.contains_key(path) ==> project.copy_assets(assets).files[path]
            == project.files[path],
        project.copy_assets(assets).dependencies == project.dependencies,
        project.copy_assets(assets).migrations == project.migrations,
        project.copy_assets(assets).services == project.services,
{
}

/// A call that stands for `expected` did what it says: on success the
/// project is the expected one, on failure the error is the expected one and
/// the project is as it was before.
pub open spec fn carried_out(
    result: Result<(), InstallError>,
    before: ProjectView,
    after: ProjectView,
    expected: Result<ProjectView, InstallErrorView>,
) -> bool {
    match expected {
        Ok(project) => result is Ok && after == project,
        Err(error) => result is Err && result->Err_0@ == error && after == before,
    }
}

/// A project: its files and its registries.
pub struct Project {
    files: Table<Vec<u8>>,
    dependencies: Table<String>,
    migrations: Vec<Migration>,
    services: Table<String>,
}

impl View for Project {
    type V = ProjectView;

    closed spec fn view(&self) -> ProjectView {
        ProjectView {
            files: self.files@,
            dependencies: self.dependencies@,
            migrations: migration_views(self.migrations@),
            services: self.services.pairs(),
        }
    }
}

impl Project {
    /// A project without files and with empty registries.
    pub fn new() -> (project: Project)
        ensures
            project@ == ProjectView::empty(),
    {
        let project = Project {
            files: Table::new(),
            dependencies: Table::new(),
            migrations: Vec::new(),
            services: Table::new(),
        };
        assert(migration_views(project.migrations@) =~= Seq::empty());
        project
    }

    /// The files, by path.
    pub fn files(&self) -> (files: &Table<Vec<u8>>)
        ensures
            files@ == self@.files,
    {
        &self.files
    }

    /// The dependency registry: version requirements by name.
    pub fn dependencies(&self) -> (dependencies: &Table<String>)
        ensures
            dependencies@ == self@.dependencies,
    {
        &self.dependencies
    }

    /// The migration registry, in the order of creation.
    pub fn migrations(&self) -> (migrations: &Vec<Migration>)
        ensures
            migration_views(migrations@) == self@.migrations,
    {
        &self.migrations
    }

    /// The service registry: mount paths by name, in the order of
    /// registration.
    pub fn services(&self) -> (services: &Table<String>)
        ensures
            services.pairs() == self@.services,
    {
        &self.services
    }

    /// The content of the file under `path`, if the project holds one.
    pub fn read(&self, path: &str) -> (content: Option<&Vec<u8>>)
        ensures
            match content {
                Some(bytes) => self@.files.contains_key(path@) && self@.files[path@] == bytes@,
                None => !self@.files.contains_key(path@),
            },
    {
        self.files.get(path)
    }

    /// Creates the file under `path` with `content`, or overwrites it.
    pub fn write(&mut self, path: &str, content: Vec<u8>)
        ensures
            final(self)@ == old(self)@.write(path@, content@),
    {
        self.files.put(path, content);
    }

    /// Copies every asset of `bundle` into the project, under the asset's
    /// path. A file that stands there already is overwritten, not merged.
    pub fn copy_assets(&mut self, bundle: &AssetBundle)
        ensures
            final(self)@ == old(self)@.copy_assets(bundle@),
    {
        let count = bundle.len();
        let mut done: usize = 0;
        assert(keyed(bundle@.take(0)) =~= Map::<Seq<char>, Seq<u8>>::empty());
        assert(self@.files =~= old(self)@.files.union_prefer_right(keyed(bundle@.take(0))));
        while done < count
            invariant
                count == bundle@.len(),
                done <= count,
                crate::bundle::sound_assets(bundle@),
                self@ == old(self)@.copy_assets(bundle@.take(done as int)),
            decreases count - done,
        {
            let ghost copied = bundle@.take(done as int);
            if let Some((path, content)) = bundle.get(done) {
                proof {
                    assert(bundle@.take(done + 1) =~= copied.push((path@, content@)));
                    assert(!has_key(copied, path@)) by {
                        if has_key(copied, path@) {
                            let i = index_of_key(copied, path@);
                            assert(bundle@[i].0 == bundle@[done as int].0);
                        }
                    }
                    lemma_keyed_push(copied, path@, content@);
                    assert(old(self)@.files.union_prefer_right(keyed(copied)).insert(
                        path@,
                        content@,
                    ) =~= old(self)@.files.union_prefer_right(keyed(copied).insert(path@, content@)));
                }
                self.write(path.as_str(), slice_to_vec(content.as_slice()));
            }
            done += 1;
        }
        assert(bundle@.take(count as int) =~= bundle@);
    }

    /// Puts `text` immediately before the content of the file under `path`.
    /// Nothing is remembered of it: a second call puts the text there again.
    pub fn prepend(&mut self, path: &str, text: &str) -> (result: Result<(), InstallError>)
        ensures
            carried_out(result, old(self)@, final(self)@, old(self)@.prepend(path@, text@)),
    {
        let edited = match self.files.get(path) {
            None => { return Err(InstallError::FileIo { path: path.to_owned() }); },
            Some(content) => splice::prepend(content.as_slice(), text.as_bytes()),
        };
        self.files.put(path, edited);
        Ok(())
    }

    /// Puts `text` immediately after the content of the file under `path`.
    /// Nothing is remembered of it: a second call puts the text there again.
    pub fn append(&mut self, path: &str, text: &str) -> (result: Result<(), InstallError>)
        ensures
            carried_out(result, old(self)@, final(self)@, old(self)@.append(path@, text@)),
    {
        let edited = match self.files.get(path) {
            None => { return Err(InstallError::FileIo { path: path.to_owned() }); },
            Some(content) => splice::append(content.as_slice(), text.as_bytes()),
        };
        self.files.put(path, edited);
        Ok(())
    }

    /// Exchanges the leftmost occurrence of `anchor` in the file under
    /// `path` for `replacement`. Where the anchor does not occur the file
    /// stays as it is and the call fails.
    pub fn replace(&mut self, path: &str, anchor: &str, replacement: &str) -> (result: Result<
        (),
        InstallError,
    >)
        ensures
            carried_out(
                result,
                old(self)@,
                final(self)@,
                old(self)@.replace(path@, anchor@, replacement@),
            ),
    {
        let edited = match self.files.get(path) {
            None => { return Err(InstallError::FileIo { path: path.to_owned() }); },
            Some(content) => splice::replace(
                content.as_slice(),
                anchor.as_bytes(),
                replacement.as_bytes(),
            ),
        };
        match edited {
            None => Err(
                InstallError::AnchorNotFound { path: path.to_owned(), anchor: anchor.to_owned() },
            ),
            Some(bytes) => {
                self.files.put(path, bytes);
                Ok(())
            },
        }
    }

    /// Records that the project depends on `name` in `version`. A
    /// requirement that stands under `name` already is replaced.
    pub fn add_dependency(&mut self, name: &str, version: &str)
        ensures
            final(self)@ == old(self)@.add_dependency(name@, version@),
    {
        self.dependencies.put(name, version.to_owned());
    }

    /// Creates a migration after all the migrations that there are and
    /// returns its identifier. Identifiers grow with each creation, so an
    /// earlier migration under the same slug is never overwritten.
    pub fn create_migration(&mut self, name: &str, up_sql: &str, down_sql: &str) -> (id: usize)
        ensures
            id == old(self)@.migrations.len(),
            final(self)@ == old(self)@.create_migration(
                MigrationView { name: name@, up_sql: up_sql@, down_sql: down_sql@ },
            ),
    {
        let id = self.migrations.len();
        let ghost before = self.migrations@;
        let migration = Migration {
            name: name.to_owned(),
            up_sql: up_sql.to_owned(),
            down_sql: down_sql.to_owned(),
        };
        self.migrations.push(migration);
        assert(migration_views(self.migrations@) =~= migration_views(before).push(migration@));
        id
    }

    /// Binds the service `name` to `mount_path`, behind the services that are
    /// bound already. Binding it to the same mount path again changes
    /// nothing; another mount path under the same name is refused, so that
    /// no binding is lost.
    pub fn register_service(&mut self, name: &str, mount_path: &str) -> (result: Result<
        (),
        InstallError,
    >)
        ensures
            carried_out(
                result,
                old(self)@,
                final(self)@,
                old(self)@.register_service(name@, mount_path@),
            ),
    {
        proof {
            self.services.lemma_view_is_keyed();
        }
        let wanted = mount_path.to_owned();
        let bound = match self.services.get(name) {
            None => None,
            Some(existing) => Some(*existing == wanted),
        };
        match bound {
            None => {
                self.services.put(name, wanted);
                Ok(())
            },
            Some(true) => Ok(()),
            Some(false) => Err(InstallError::RegistrationConflict { name: name.to_owned() }),
        }
    }
}

} // verus!
