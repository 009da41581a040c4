//! The editor session: the tool, the level, and the entry of a file path for
//! saving and loading. The caller reads and writes files; the session decides.
use crate::coords::{cell_at, is_right, orientation_at, pointer_ok, to_level_loader_coords, ScreenScale};
use crate::input_handler::{InputHandler, Key};
use crate::level_data::{LevelData, LevelView};
use crate::serialization::{load, load_view, save, saved_as};
use crate::text::copy_range;
use vstd::prelude::*;

verus! {

/// Characters of the general category Cc, which path entry ignores.
pub open spec fn is_control_char(c: char) -> bool {
    c <= '\u{1f}' || ('\u{7f}' <= c <= '\u{9f}')
}

pub fn is_control(c: char) -> (r: bool)
    ensures
        r == is_control_char(c),
{
    c <= '\u{1f}' || ('\u{7f}' <= c && c <= '\u{9f}')
}

fn copy_all(v: &Vec<char>) -> (r: Vec<char>)
    ensures
        r@ == v@,
{
    let r = copy_range(v, 0, v.len());
    assert(v@.subrange(0, v@.len() as int) =~= v@);
    r
}

pub struct EditorSession {
    pub input_handler: InputHandler,
    pub level_data: LevelData,
    /// The path that saving and loading use.
    pub current_path: Vec<char>,
    pub showing_error: bool,
    /// Key presses edit `current_path` instead of the tool.
    pub entering_text: bool,
    /// No path entered since the last save or load.
    pub entered_text_consumed: bool,
    /// The message shown on screen.
    pub text_to_draw: Vec<char>,
}

impl EditorSession {
    pub open spec fn wf(&self) -> bool {
        self.input_handler.wf() && self.level_data.wf()
    }

    pub fn new() -> (r: EditorSession)
        ensures
            r.wf(),
            r.input_handler == InputHandler::new_spec(),
            r.level_data@ == LevelView::empty(),
            r.current_path@.len() == 0,
            !r.showing_error,
            !r.entering_text,
            r.entered_text_consumed,
            r.text_to_draw@.len() == 0,
    {
        EditorSession {
            input_handler: InputHandler::new(),
            level_data: LevelData::new(),
            current_path: Vec::new(),
            showing_error: false,
            entering_text: false,
            entered_text_consumed: true,
            text_to_draw: Vec::new(),
        }
    }

    /// A key press: it first dismisses a shown error; while a path is entered,
    /// Backspace drops its last character and Enter ends the entry; otherwise the
    /// tool takes the key.
    pub fn key_down_event(&mut self, key: Option<Key>)
        requires
            old(self).wf(),
        ensures
            final(self).wf(),
            !final(self).showing_error,
            old(self).showing_error && !old(self).entering_text ==> final(self).text_to_draw@.len() == 0,
            !old(self).showing_error && !old(self).entering_text ==> final(self).text_to_draw@ == old(self).text_to_draw@,
            final(self).level_data == old(self).level_data,
            old(self).entering_text ==> {
                &&& final(self).input_handler == old(self).input_handler
                &&& key == Some(Key::Back) ==> {
                    &&& final(self).current_path@ == (if old(self).current_path@.len() > 0 {
                        old(self).current_path@.drop_last()
                    } else {
                        old(self).current_path@
                    })
                    &&& final(self).text_to_draw@ == final(self).current_path@
                    &&& final(self).entering_text
                    &&& final(self).entered_text_consumed == old(self).entered_text_consumed
                }
                &&& key == Some(Key::Return) ==> {
                    &&& final(self).current_path@ == old(self).current_path@
                    &&& !final(self).entering_text
                    &&& !final(self).entered_text_consumed
                    &&& final(self).text_to_draw@.len() == 0
                }
                &&& key != Some(Key::Back) && key != Some(Key::Return) ==> {
                    &&& final(self).current_path@ == old(self).current_path@
                    &&& final(self).entering_text
                    &&& final(self).entered_text_consumed == old(self).entered_text_consumed
                    &&& final(self).text_to_draw@ == (if old(self).showing_error {
                        Seq::empty()
                    } else {
                        old(self).text_to_draw@
                    })
                }
            },
            !old(self).entering_text ==> {
                &&& final(self).input_handler == match key {
                    Some(k) => old(self).input_handler.after_key(k),
                    None => old(self).input_handler,
                }
                &&& final(self).current_path@ == old(self).current_path@
                &&& !final(self).entering_text
                &&& final(self).entered_text_consumed == old(self).entered_text_consumed
            },
    {
        if self.showing_error {
            self.showing_error = false;
            self.text_to_draw.clear();
        }
        if self.entering_text {
            match key {
                Some(Key::Back) => {
                    self.current_path.pop();
                    self.text_to_draw = copy_all(&self.current_path);
                },
                Some(Key::Return) => {
                    self.entering_text = false;
                    self.entered_text_consumed = false;
                    self.text_to_draw.clear();
                },
                _ => {},
            }
        } else {
            self.input_handler.handle_input(key);
        }
    }

    /// A typed character: while a path is entered, any character but a control
    /// character is added to it.
    pub fn text_input_event(&mut self, character: char)
        ensures
            final(self).input_handler == old(self).input_handler,
            final(self).level_data == old(self).level_data,
            final(self).entering_text == old(self).entering_text,
            final(self).entered_text_consumed == old(self).entered_text_consumed,
            final(self).showing_error == old(self).showing_error,
            old(self).entering_text && !is_control_char(character) ==> {
                &&& final(self).current_path@ == old(self).current_path@.push(character)
                &&& final(self).text_to_draw@ == final(self).current_path@
            },
            !(old(self).entering_text && !is_control_char(character)) ==> {
                &&& final(self).current_path@ == old(self).current_path@
                &&& final(self).text_to_draw@ == old(self).text_to_draw@
            },
    {
        if self.entering_text {
            if !is_control(character) {
                self.current_path.push(character);
                self.text_to_draw = copy_all(&self.current_path);
            }
        }
    }

    /// One frame's pointer buttons at window position (`px`, `py`): the left one
    /// paints the tool onto the cell under the pointer, then the right one erases
    /// the current layer there. Nothing happens where the cell's index does not fit.
    pub fn pointer_event(&mut self, left: bool, right: bool, px: i64, py: i64, scale: ScreenScale)
        requires
            old(self).wf(),
            scale.wf(),
            pointer_ok(px),
            pointer_ok(py),
        ensures
            final(self).wf(),
            final(self).input_handler == old(self).input_handler,
            final(self).current_path == old(self).current_path,
            final(self).entering_text == old(self).entering_text,
            final(self).entered_text_consumed == old(self).entered_text_consumed,
            final(self).showing_error == old(self).showing_error,
            final(self).text_to_draw == old(self).text_to_draw,
            ({
                let o = orientation_at(px as int, py as int, scale);
                let tool = old(self).input_handler.tool();
                let layer = old(self).input_handler.layer;
                match cell_at(px as int, py as int, scale) {
                    Some(cell) => {
                        let painted = if left {
                            old(self).level_data@.paint(cell, tool, o)
                        } else {
                            old(self).level_data@
                        };
                        final(self).level_data@ == if right {
                            painted.erase(cell, layer, o)
                        } else {
                            painted
                        }
                    },
                    None => final(self).level_data@ == old(self).level_data@,
                }
            }),
    {
        if !left && !right {
            return ;
        }
        let cell = match to_level_loader_coords(px, py, scale) {
            Some(c) => c,
            None => return ,
        };
        let orientation = is_right(px, py, scale);
        if left {
            let data = self.input_handler.get_data();
            self.level_data.insert(cell, data, orientation);
        }
        if right {
            let layer = self.input_handler.layer();
            self.level_data.remove(cell, layer, orientation);
        }
    }
}

impl EditorSession {
    /// A pending save request: with no path entered yet, starts the entry of one;
    /// else returns the text to write to `current_path` and clears the request.
    pub fn save_step(&mut self) -> (r: Option<Vec<char>>)
        requires
            old(self).wf(),
        ensures
            final(self).wf(),
            final(self).level_data == old(self).level_data,
            final(self).current_path == old(self).current_path,
            final(self).showing_error == old(self).showing_error,
            final(self).input_handler.request_load == old(self).input_handler.request_load,
            !old(self).input_handler.request_save ==> r is None && *final(self) == *old(self),
            old(self).input_handler.request_save && old(self).entered_text_consumed ==> {
                &&& r is None
                &&& final(self).entering_text
                &&& final(self).entered_text_consumed
                &&& final(self).text_to_draw@ == old(self).current_path@
                &&& final(self).input_handler == old(self).input_handler
            },
            old(self).input_handler.request_save && !old(self).entered_text_consumed ==> {
                &&& r is Some && saved_as(old(self).level_data@, r->0@)
                &&& final(self).entered_text_consumed
                &&& final(self).entering_text == old(self).entering_text
                &&& final(self).text_to_draw == old(self).text_to_draw
                &&& final(self).input_handler == (InputHandler { request_save: false, ..old(self).input_handler })
            },
    {
        if !self.input_handler.request_save {
            return None;
        }
        if self.entered_text_consumed {
            self.entering_text = true;
            self.text_to_draw = copy_all(&self.current_path);
            None
        } else {
            let contents = save(&self.level_data);
            self.entered_text_consumed = true;
            self.input_handler.request_save = false;
            Some(contents)
        }
    }

    /// A pending load request: with no path entered yet, starts the entry of one;
    /// else clears the request and returns true: the caller is to read
    /// `current_path` and hand its text to `finish_load`.
    pub fn load_step(&mut self) -> (r: bool)
        requires
            old(self).wf(),
        ensures
            final(self).wf(),
            final(self).level_data == old(self).level_data,
            final(self).current_path == old(self).current_path,
            final(self).showing_error == old(self).showing_error,
            final(self).input_handler.request_save == old(self).input_handler.request_save,
            !old(self).input_handler.request_load ==> !r && *final(self) == *old(self),
            old(self).input_handler.request_load && old(self).entered_text_consumed ==> {
                &&& !r
                &&& final(self).entering_text
                &&& final(self).entered_text_consumed
                &&& final(self).text_to_draw@ == old(self).current_path@
                &&& final(self).input_handler == old(self).input_handler
            },
            old(self).input_handler.request_load && !old(self).entered_text_consumed ==> {
                &&& r
                &&& final(self).entered_text_consumed
                &&& final(self).entering_text == old(self).entering_text
                &&& final(self).text_to_draw == old(self).text_to_draw
                &&& final(self).input_handler == (InputHandler { request_load: false, ..old(self).input_handler })
            },
    {
        if !self.input_handler.request_load {
            return false;
        }
        if self.entered_text_consumed {
            self.entering_text = true;
            self.text_to_draw = copy_all(&self.current_path);
            false
        } else {
            self.entered_text_consumed = true;
            self.input_handler.request_load = false;
            true
        }
    }

    /// Replaces the level by the one `contents` describes.
    pub fn finish_load(&mut self, contents: &Vec<char>)
        requires
            old(self).wf(),
        ensures
            final(self).wf(),
            final(self).level_data@ == load_view(contents@),
            final(self).input_handler == old(self).input_handler,
            final(self).current_path == old(self).current_path,
            final(self).entering_text == old(self).entering_text,
            final(self).entered_text_consumed == old(self).entered_text_consumed,
            final(self).showing_error == old(self).showing_error,
            final(self).text_to_draw == old(self).text_to_draw,
    {
        self.level_data = load(contents);
    }

    /// Shows an error message until the next key press.
    pub fn encountered_error(&mut self, message: Vec<char>)
        ensures
            final(self).showing_error,
            final(self).text_to_draw == message,
            final(self).input_handler == old(self).input_handler,
            final(self).level_data == old(self).level_data,
            final(self).current_path == old(self).current_path,
            final(self).entering_text == old(self).entering_text,
            final(self).entered_text_consumed == old(self).entered_text_consumed,
    {
        self.showing_error = true;
        self.text_to_draw = message;
    }
}

} // verus!
