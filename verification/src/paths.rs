//! The application's directory layout under one root directory.
use vstd::prelude::*;

verus! {

/// Whether `r` is `base` with the relative name `name` adjoined, as
/// `Path::join` does it on every platform: directly after a separator or a
/// drive, or after one inserted separator.
pub open spec fn joined(base: Seq<char>, name: Seq<char>, r: Seq<char>) -> bool {
    r == base + name || r == base + seq!['/'] + name || r == base + seq!['\\'] + name
}

/// A plain name of one path component: not empty, and free of separators,
/// drive colons and dots alone.
pub open spec fn plain_component(name: Seq<char>) -> bool {
    &&& name.len() > 0
    &&& forall|i: int| 0 <= i < name.len() ==> name[i] != '/' && name[i] != '\\' && name[i] != ':'
    &&& name != seq!['.'] && name != seq!['.', '.']
}

/// Calls `Path::join` and renders the result with `to_string_lossy`. Claims
/// that for a plain relative name the result is the base, possibly a
/// separator (`/` or `\`, depending on the platform and on how the base
/// ends), and the name. Which separator is left unsaid: it depends on the
/// platform.
#[verifier::external_body]
fn join_path(base: &str, name: &str) -> (r: String)
    requires
        plain_component(name@),
    ensures
        joined(base@, name@, r@),
{
    std::path::Path::new(base).join(name).to_string_lossy().into_owned()
}

/// The directories of the application, all under `root`.
#[derive(Clone, Debug)]
pub struct AppPaths {
    pub root: String,
    pub app: String,
    pub frontend: String,
    pub crates: String,
    pub installer: String,
    pub docs: String,
    pub data: String,
    pub db: String,
    pub raw_resources: String,
    pub indexes: String,
    pub embeddings: String,
    pub attachments: String,
    pub templates: String,
    pub exports: String,
    pub backups: String,
    pub logs: String,
}

/// Whether `p` is the layout under `root`: program directories beside
/// `data`, and the data directories inside it.
pub open spec fn layout_under(p: AppPaths, root: Seq<char>) -> bool {
    &&& p.root@ == root
    &&& joined(root, "app"@, p.app@)
    &&& joined(root, "frontend"@, p.frontend@)
    &&& joined(root, "crates"@, p.crates@)
    &&& joined(root, "installer"@, p.installer@)
    &&& joined(root, "docs"@, p.docs@)
    &&& joined(root, "data"@, p.data@)
    &&& joined(p.data@, "db"@, p.db@)
    &&& joined(p.data@, "raw_resources"@, p.raw_resources@)
    &&& joined(p.data@, "indexes"@, p.indexes@)
    &&& joined(p.data@, "embeddings"@, p.embeddings@)
    &&& joined(p.data@, "attachments"@, p.attachments@)
    &&& joined(p.data@, "templates"@, p.templates@)
    &&& joined(p.data@, "exports"@, p.exports@)
    &&& joined(p.data@, "backups"@, p.backups@)
    &&& joined(p.data@, "logs"@, p.logs@)
}

fn plain(name: &str) -> (r: String)
    requires
        plain_component(name@),
    ensures
        r@ == name@,
{
    crate::text::owned(name)
}

impl AppPaths {
    /// The layout under a root directory.
    pub fn from_root(root: &str) -> (r: AppPaths)
        ensures
            layout_under(r, root@),
    {
        proof {
            assert(plain_component("app"@)) by {
                reveal_strlit("app");
                assert("app"@ =~= seq!['a', 'p', 'p']);
            }
            assert(plain_component("frontend"@)) by {
                reveal_strlit("frontend");
                assert("frontend"@ =~= seq!['f', 'r', 'o', 'n', 't', 'e', 'n', 'd']);
            }
            assert(plain_component("crates"@)) by {
                reveal_strlit("crates");
                assert("crates"@ =~= seq!['c', 'r', 'a', 't', 'e', 's']);
            }
            assert(plain_component("installer"@)) by {
                reveal_strlit("installer");
                assert("installer"@ =~= seq!['i', 'n', 's', 't', 'a', 'l', 'l', 'e', 'r']);
            }
            assert(plain_component("docs"@)) by {
                reveal_strlit("docs");
                assert("docs"@ =~= seq!['d', 'o', 'c', 's']);
            }
            assert(plain_component("data"@)) by {
                reveal_strlit("data");
                assert("data"@ =~= seq!['d', 'a', 't', 'a']);
            }
            assert(plain_component("db"@)) by {
                reveal_strlit("db");
                assert("db"@ =~= seq!['d', 'b']);
            }
            assert(plain_component("raw_resources"@)) by {
                reveal_strlit("raw_resources");
                assert("raw_resources"@ =~= seq!['r', 'a', 'w', '_', 'r', 'e', 's', 'o', 'u', 'r', 'c', 'e', 's']);
            }
            assert(plain_component("indexes"@)) by {
                reveal_strlit("indexes");
                assert("indexes"@ =~= seq!['i', 'n', 'd', 'e', 'x', 'e', 's']);
            }
            assert(plain_component("embeddings"@)) by {
                reveal_strlit("embeddings");
                assert("embeddings"@ =~= seq!['e', 'm', 'b', 'e', 'd', 'd', 'i', 'n', 'g', 's']);
            }
            assert(plain_component("attachments"@)) by {
                reveal_strlit("attachments");
                assert("attachments"@ =~= seq!['a', 't', 't', 'a', 'c', 'h', 'm', 'e', 'n', 't', 's']);
            }
            assert(plain_component("templates"@)) by {
                reveal_strlit("templates");
                assert("templates"@ =~= seq!['t', 'e', 'm', 'p', 'l', 'a', 't', 'e', 's']);
            }
            assert(plain_component("exports"@)) by {
                reveal_strlit("exports");
                assert("exports"@ =~= seq!['e', 'x', 'p', 'o', 'r', 't', 's']);
            }
            assert(plain_component("backups"@)) by {
                reveal_strlit("backups");
                assert("backups"@ =~= seq!['b', 'a', 'c', 'k', 'u', 'p', 's']);
            }
            assert(plain_component("logs"@)) by {
                reveal_strlit("logs");
                assert("logs"@ =~= seq!['l', 'o', 'g', 's']);
            }
        }
        let data = join_path(root, "data");
        AppPaths {
            app: join_path(root, "app"),
            frontend: join_path(root, "frontend"),
            crates: join_path(root, "crates"),
            installer: join_path(root, "installer"),
            docs: join_path(root, "docs"),
            db: join_path(data.as_str(), "db"),
            raw_resources: join_path(data.as_str(), "raw_resources"),
            indexes: join_path(data.as_str(), "indexes"),
            embeddings: join_path(data.as_str(), "embeddings"),
            attachments: join_path(data.as_str(), "attachments"),
            templates: join_path(data.as_str(), "templates"),
            exports: join_path(data.as_str(), "exports"),
            backups: join_path(data.as_str(), "backups"),
            logs: join_path(data.as_str(), "logs"),
            data,
            root: crate::text::owned(root),
        }
    }

    /// Every directory of the layout, in the order they are created: the
    /// root, the program directories, the data directory and those inside it.
    pub open spec fn directories_spec(self) -> Seq<Seq<char>> {
        seq![
            self.root@, self.app@, self.frontend@, self.crates@, self.installer@, self.docs@, self.data@, self.db@,
            self.raw_resources@, self.indexes@, self.embeddings@, self.attachments@, self.templates@, self.exports@,
            self.backups@, self.logs@,
        ]
    }

    /// Every directory of the layout, to be created when missing.
    pub fn all_directories(&self) -> (r: Vec<String>)
        ensures
            crate::text::views(r@) == self.directories_spec(),
    {
        let r = vec![
            crate::text::owned(self.root.as_str()),
            crate::text::owned(self.app.as_str()),
            crate::text::owned(self.frontend.as_str()),
            crate::text::owned(self.crates.as_str()),
            crate::text::owned(self.installer.as_str()),
            crate::text::owned(self.docs.as_str()),
            crate::text::owned(self.data.as_str()),
            crate::text::owned(self.db.as_str()),
            crate::text::owned(self.raw_resources.as_str()),
            crate::text::owned(self.indexes.as_str()),
            crate::text::owned(self.embeddings.as_str()),
            crate::text::owned(self.attachments.as_str()),
            crate::text::owned(self.templates.as_str()),
            crate::text::owned(self.exports.as_str()),
            crate::text::owned(self.backups.as_str()),
            crate::text::owned(self.logs.as_str()),
        ];
        assert(crate::text::views(r@) =~= self.directories_spec());
        r
    }

    /// The database file, inside the `db` directory.
    pub fn database_file(&self) -> (r: String)
        ensures
            joined(self.db@, "toukan_robot.sqlite3"@, r@),
    {
        proof {
            assert(plain_component("toukan_robot.sqlite3"@)) by {
                reveal_strlit("toukan_robot.sqlite3");
                assert("toukan_robot.sqlite3"@ =~= seq!['t', 'o', 'u', 'k', 'a', 'n', '_', 'r', 'o', 'b', 'o', 't', '.', 's', 'q', 'l', 'i', 't', 'e', '3']);
            }
        }
        join_path(self.db.as_str(), "toukan_robot.sqlite3")
    }

    /// A directory or file inside another one of the layout.
    pub fn child(dir: &str, name: &str) -> (r: String)
        requires
            plain_component(name@),
        ensures
            joined(dir@, name@, r@),
    {
        join_path(dir, name)
    }
}

/// The root directory of the application: the one named by the
/// environment when it is set; else `D:\投刊机器人` when it exists; else
/// `投刊机器人` inside the local application data directory when that is
/// known; else `投刊机器人` relative to the working directory.
pub fn discover_root(home: Option<&str>, preferred_exists: bool, local_app_data: Option<&str>) -> (r: String)
    ensures
        home matches Some(h) ==> r@ == h@,
        home is None && preferred_exists ==> r@ == "D:\\投刊机器人"@,
        home is None && !preferred_exists && local_app_data is Some ==> joined(local_app_data->0@, "投刊机器人"@, r@),
        home is None && !preferred_exists && local_app_data is None ==> r@ == "投刊机器人"@,
{
    match home {
        Some(h) => crate::text::owned(h),
        None => {
            if preferred_exists {
                crate::text::owned("D:\\投刊机器人")
            } else {
                match local_app_data {
                    Some(l) => {
                        proof {
                            assert(plain_component("投刊机器人"@)) by {
                                reveal_strlit("投刊机器人");
                                assert("投刊机器人"@ =~= seq!['投', '刊', '机', '器', '人']);
                            }
                        }
                        join_path(l, "投刊机器人")
                    },
                    None => crate::text::owned("投刊机器人"),
                }
            }
        },
    }
}

} // verus!
