use vstd::prelude::*;
use crate::model::{DirectoryBookmark, FavoriteConnection};
use crate::state::BrowserState;
use crate::text::concat3;

verus! {

/// `f` is the profile `name` for `user` at `host` with `password`.
pub open spec fn favorite_is(
    f: FavoriteConnection,
    name: Seq<char>,
    host: Seq<char>,
    user: Seq<char>,
    password: Seq<char>,
) -> bool {
    f.name@ == name && f.host@ == host && f.user@ == user && f.password@ == password
}

/// `b` is the shortcut `name` to `path` on `host`.
pub open spec fn bookmark_is(b: DirectoryBookmark, name: Seq<char>, path: Seq<char>, host: Seq<char>) -> bool {
    b.name@ == name && b.path@ == path && b.host@ == host
}

/// `i` is the first index in `names` holding `name`, or the length when none does.
pub open spec fn first_index(names: Seq<Seq<char>>, name: Seq<char>, i: int) -> bool {
    &&& 0 <= i <= names.len()
    &&& forall|k: int| 0 <= k < i ==> names[k] != name
    &&& i < names.len() ==> names[i] == name
}

pub open spec fn favorite_names(s: Seq<FavoriteConnection>) -> Seq<Seq<char>> {
    s.map_values(|f: FavoriteConnection| f.name@)
}

pub open spec fn bookmark_names(s: Seq<DirectoryBookmark>) -> Seq<Seq<char>> {
    s.map_values(|b: DirectoryBookmark| b.name@)
}

/// `after` is `before` with the element at `i` replaced, or with one element
/// added at the end when `i` is the length.
pub open spec fn replaced_or_added<T>(before: Seq<T>, after: Seq<T>, i: int) -> bool {
    &&& after.len() == if i < before.len() { before.len() } else { before.len() + 1 }
    &&& forall|k: int| 0 <= k < before.len() && k != i ==> after[k] == before[k]
}

fn find_favorite(s: &Vec<FavoriteConnection>, name: &String) -> (r: usize)
    ensures
        first_index(favorite_names(s@), name@, r as int),
{
    let mut i: usize = 0;
    while i < s.len()
        invariant
            i <= s@.len(),
            forall|k: int| 0 <= k < i ==> favorite_names(s@)[k] != name@,
        decreases s@.len() - i,
    {
        if s[i].name == *name {
            return i;
        }
        i += 1;
    }
    i
}

fn find_bookmark(s: &Vec<DirectoryBookmark>, name: &String) -> (r: usize)
    ensures
        first_index(bookmark_names(s@), name@, r as int),
{
    let mut i: usize = 0;
    while i < s.len()
        invariant
            i <= s@.len(),
            forall|k: int| 0 <= k < i ==> bookmark_names(s@)[k] != name@,
        decreases s@.len() - i,
    {
        if s[i].name == *name {
            return i;
        }
        i += 1;
    }
    i
}

impl<C> BrowserState<C> {
    /// Saves the login fields as the profile named by the name field,
    /// replacing the first profile of that name. Says whether the list
    /// changed; with an empty name nothing happens.
    pub fn save_favorite(&mut self) -> (changed: bool)
        ensures
            changed == (old(self).favorite_name_input@.len() > 0),
            !changed ==> *final(self) == *old(self),
            changed ==> exists|i: int|
                first_index(favorite_names(old(self).favorites@), old(self).favorite_name_input@, i)
                    && replaced_or_added(old(self).favorites@, final(self).favorites@, i)
                    && favorite_is(
                    #[trigger] final(self).favorites@[i],
                    old(self).favorite_name_input@,
                    old(self).host@,
                    old(self).user@,
                    old(self).password@,
                ),
            changed ==> final(self).status_msg@ == "Saved favorite '"@ + old(self).favorite_name_input@
                + "'"@,
    {
        if self.favorite_name_input.as_str().is_empty() {
            return false;
        }
        let fav = FavoriteConnection {
            name: self.favorite_name_input.clone(),
            host: self.host.clone(),
            user: self.user.clone(),
            password: self.password.clone(),
        };
        let i = find_favorite(&self.favorites, &self.favorite_name_input);
        if i < self.favorites.len() {
            self.favorites.set(i, fav);
        } else {
            self.favorites.push(fav);
        }
        self.status_msg = concat3("Saved favorite '", self.favorite_name_input.as_str(), "'");
        assert(first_index(favorite_names(old(self).favorites@), old(self).favorite_name_input@, i as int));
        assert(replaced_or_added(old(self).favorites@, self.favorites@, i as int));
        assert(favorite_is(
            self.favorites@[i as int],
            old(self).favorite_name_input@,
            old(self).host@,
            old(self).user@,
            old(self).password@,
        ));
        true
    }

    /// Deletes the first profile named by the name field. Says whether the
    /// list changed; with an empty name nothing happens.
    pub fn delete_favorite(&mut self) -> (changed: bool)
        ensures
            old(self).favorite_name_input@.len() == 0 ==> !changed && *final(self) == *old(self),
            old(self).favorite_name_input@.len() > 0 ==> exists|i: int|
                #[trigger] first_index(favorite_names(old(self).favorites@), old(self).favorite_name_input@, i)
                    && changed == (i < old(self).favorites@.len()) && if changed {
                    final(self).favorites@ == old(self).favorites@.remove(i)
                        && final(self).favorite_name_input@.len() == 0
                        && final(self).status_msg@ == "Deleted favorite '"@
                        + old(self).favorite_name_input@ + "'"@
                } else {
                    final(self).favorites@ == old(self).favorites@
                        && final(self).status_msg@ == "Favorite '"@
                        + old(self).favorite_name_input@ + "' not found"@
                },
    {
        if self.favorite_name_input.as_str().is_empty() {
            return false;
        }
        let i = find_favorite(&self.favorites, &self.favorite_name_input);
        assert(first_index(favorite_names(old(self).favorites@), old(self).favorite_name_input@, i as int));
        if i < self.favorites.len() {
            self.favorites.remove(i);
            self.status_msg = concat3("Deleted favorite '", self.favorite_name_input.as_str(), "'");
            self.favorite_name_input = String::new();
            true
        } else {
            self.status_msg = concat3("Favorite '", self.favorite_name_input.as_str(), "' not found");
            false
        }
    }

    /// Saves the current directory of the current host as the shortcut
    /// named by the bookmark field, replacing the first one of that name.
    /// Says whether the list changed; an empty name is refused.
    pub fn add_directory_bookmark(&mut self) -> (changed: bool)
        ensures
            changed == (old(self).bookmark_name_input@.len() > 0),
            !changed ==> final(self).directory_bookmarks == old(self).directory_bookmarks
                && final(self).status_msg@ == "Bookmark name cannot be empty."@,
            changed ==> exists|i: int|
                #[trigger] first_index(bookmark_names(old(self).directory_bookmarks@), old(self).bookmark_name_input@, i)
                    && replaced_or_added(old(self).directory_bookmarks@, final(self).directory_bookmarks@, i)
                    && bookmark_is(
                    final(self).directory_bookmarks@[i],
                    old(self).bookmark_name_input@,
                    old(self).current_path@,
                    old(self).host@,
                ) && final(self).status_msg@ == (if i < old(self).directory_bookmarks@.len() {
                    "Updated bookmark '"@
                } else {
                    "Added bookmark '"@
                }) + old(self).bookmark_name_input@ + "'"@,
            changed ==> final(self).bookmark_name_input@.len() == 0,
    {
        if self.bookmark_name_input.as_str().is_empty() {
            self.status_msg = String::from_str("Bookmark name cannot be empty.");
            return false;
        }
        let b = DirectoryBookmark {
            name: self.bookmark_name_input.clone(),
            path: self.current_path.clone(),
            host: self.host.clone(),
        };
        let i = find_bookmark(&self.directory_bookmarks, &self.bookmark_name_input);
        if i < self.directory_bookmarks.len() {
            self.directory_bookmarks.set(i, b);
            self.status_msg = concat3("Updated bookmark '", self.bookmark_name_input.as_str(), "'");
        } else {
            self.directory_bookmarks.push(b);
            self.status_msg = concat3("Added bookmark '", self.bookmark_name_input.as_str(), "'");
        }
        assert(first_index(bookmark_names(old(self).directory_bookmarks@), old(self).bookmark_name_input@, i as int));
        assert(replaced_or_added(old(self).directory_bookmarks@, self.directory_bookmarks@, i as int));
        self.bookmark_name_input = String::new();
        true
    }

    /// Deletes the first shortcut named by the bookmark field. Says whether
    /// the list changed; an empty name is refused.
    pub fn delete_directory_bookmark(&mut self) -> (changed: bool)
        ensures
            old(self).bookmark_name_input@.len() == 0 ==> !changed
                && final(self).directory_bookmarks == old(self).directory_bookmarks
                && final(self).status_msg@ == "Bookmark name cannot be empty."@,
            old(self).bookmark_name_input@.len() > 0 ==> exists|i: int|
                #[trigger] first_index(bookmark_names(old(self).directory_bookmarks@), old(self).bookmark_name_input@, i)
                    && changed == (i < old(self).directory_bookmarks@.len()) && if changed {
                    final(self).directory_bookmarks@ == old(self).directory_bookmarks@.remove(i)
                        && final(self).bookmark_name_input@.len() == 0
                        && final(self).status_msg@ == "Deleted bookmark '"@
                        + old(self).bookmark_name_input@ + "'"@
                } else {
                    final(self).directory_bookmarks@ == old(self).directory_bookmarks@
                        && final(self).status_msg@ == "Bookmark '"@
                        + old(self).bookmark_name_input@ + "' not found"@
                },
    {
        if self.bookmark_name_input.as_str().is_empty() {
            self.status_msg = String::from_str("Bookmark name cannot be empty.");
            return false;
        }
        let i = find_bookmark(&self.directory_bookmarks, &self.bookmark_name_input);
        assert(first_index(bookmark_names(old(self).directory_bookmarks@), old(self).bookmark_name_input@, i as int));
        if i < self.directory_bookmarks.len() {
            self.directory_bookmarks.remove(i);
            self.status_msg = concat3("Deleted bookmark '", self.bookmark_name_input.as_str(), "'");
            self.bookmark_name_input = String::new();
            true
        } else {
            self.status_msg = concat3("Bookmark '", self.bookmark_name_input.as_str(), "' not found");
            false
        }
    }

    /// Indices of the shortcuts that belong to the current host, in order.
    pub fn host_bookmarks(&self) -> (r: Vec<usize>)
        ensures
            forall|j: int| 0 <= j < r@.len() ==> (#[trigger] r@[j]) < self.directory_bookmarks@.len()
                && self.directory_bookmarks@[r@[j] as int].host@ == self.host@,
            forall|j: int, k: int| 0 <= j < k < r@.len() ==> r@[j] < r@[k],
            forall|i: int|
                0 <= i < self.directory_bookmarks@.len() && (#[trigger] self.directory_bookmarks@[i]).host@
                    == self.host@ ==> r@.contains(i as usize),
    {
        let mut r: Vec<usize> = Vec::new();
        let mut i: usize = 0;
        while i < self.directory_bookmarks.len()
            invariant
                i <= self.directory_bookmarks@.len(),
                forall|j: int| 0 <= j < r@.len() ==> (#[trigger] r@[j]) < i
                    && self.directory_bookmarks@[r@[j] as int].host@ == self.host@,
                forall|j: int, k: int| 0 <= j < k < r@.len() ==> r@[j] < r@[k],
                forall|m: int|
                    0 <= m < i && (#[trigger] self.directory_bookmarks@[m]).host@ == self.host@
                        ==> r@.contains(m as usize),
            decreases self.directory_bookmarks@.len() - i,
        {
            if self.directory_bookmarks[i].host == self.host {
                let ghost r0 = r@;
                r.push(i);
                proof {
                    assert forall|m: int|
                        0 <= m < i + 1 && (#[trigger] self.directory_bookmarks@[m]).host@ == self.host@
                            implies r@.contains(m as usize) by {
                        if m < i {
                            let w = choose|w: int| 0 <= w < r0.len() && r0[w] == m as usize;
                            assert(r@[w] == m as usize);
                        } else {
                            assert(r@[r0.len() as int] == i);
                        }
                    }
                }
            }
            i += 1;
        }
        r
    }
}

} // verus!
