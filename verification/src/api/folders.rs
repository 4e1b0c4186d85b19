//! Requests about folders, and what is read from the answers.

use crate::api::dashboards::{plain_request, request, Folder, Method, Request, SimpleDashboard};
use crate::instance::GrafanaInstance;
use crate::mirror::{is_root, is_root_title};
use vstd::prelude::*;
use vstd::string::*;

verus! {

/// The address of the folder `uid` on the instance at `base_url`.
pub open spec fn folder_url(base_url: Seq<char>, uid: Seq<char>) -> Seq<char> {
    base_url + "/api/folders/"@ + uid
}

/// `i` is the position of the first folder in `folders` with the title `title`.
pub open spec fn is_first_titled(folders: Seq<Folder>, title: Seq<char>, i: int) -> bool {
    &&& 0 <= i < folders.len()
    &&& folders[i].title@ == title
    &&& forall|k: int| 0 <= k < i ==> (#[trigger] folders[k]).title@ != title
}

/// The first folder in `folders` with the title `title`.
pub fn find_folder<'a>(folders: &'a Vec<Folder>, title: &str) -> (r: Option<&'a Folder>)
    ensures
        match r {
            Some(folder) => exists|i: int|
                is_first_titled(folders@, title@, i) && *folder == #[trigger] folders@[i],
            None => forall|k: int| 0 <= k < folders.len() ==> (#[trigger] folders@[k]).title@ != title@,
        },
{
    let wanted = String::from_str(title);
    let mut i: usize = 0;
    while i < folders.len()
        invariant
            i <= folders.len(),
            wanted@ == title@,
            forall|k: int| 0 <= k < i ==> (#[trigger] folders@[k]).title@ != title@,
        decreases folders.len() - i,
    {
        if folders[i].title == wanted {
            assert(is_first_titled(folders@, title@, i as int));
            return Some(&folders[i]);
        }
        i += 1;
    }
    None
}

impl GrafanaInstance {
    /// Asks for the folders of the instance.
    pub fn list_folders(&self) -> (r: Request)
        ensures
            r@ == plain_request(Method::Get, self.spec_base_url() + "/api/folders"@),
    {
        request(Method::Get, String::from_str(self.base_url()).concat("/api/folders"))
    }

    /// Asks to make a folder; its title goes in the body of the request.
    pub fn create_folder(&self) -> (r: Request)
        ensures
            r@ == plain_request(Method::Post, self.spec_base_url() + "/api/folders"@),
    {
        request(Method::Post, String::from_str(self.base_url()).concat("/api/folders"))
    }

    /// Asks to delete the folder `folder_uid`.
    pub fn delete_folder(&self, folder_uid: &str) -> (r: Request)
        ensures
            r@ == plain_request(Method::Delete, folder_url(self.spec_base_url(), folder_uid@)),
    {
        request(
            Method::Delete,
            String::from_str(self.base_url()).concat("/api/folders/").concat(folder_uid),
        )
    }

    /// The request that removes `folder`, where `found`, the dashboards that
    /// the instance lists for it, is empty. The root folder is never removed.
    pub fn remove_if_empty(&self, folder: &Folder, found: &Vec<SimpleDashboard>) -> (r: Option<
        Request,
    >)
        ensures
            match r {
                Some(request) => found.len() == 0 && !is_root_title(folder.title@) && request@
                    == plain_request(
                    Method::Delete,
                    folder_url(self.spec_base_url(), folder.uid@),
                ),
                None => found.len() > 0 || is_root_title(folder.title@),
            },
    {
        if found.len() == 0 && !is_root(&folder.title) {
            Some(self.delete_folder(folder.uid.as_str()))
        } else {
            None
        }
    }
}

} // verus!
