//! The session on a full screen: four areas, one of them in use, and the
//! keys that move between them and act on the session.

use crate::backend::pomodoro::{by_completion, marked, nth_by_completion, Pomodoro};
use crate::backend::task::{parsed, Task};
use crate::backend::text::push_char;
use crate::frontend::{task_line, task_line_of};
use vstd::prelude::*;
use vstd::string::*;

verus! {

/// The number of buttons under the clock: pause, and on to the next mode.
pub const COL_SIZE: usize = 2;

/// How many seconds must have passed since the mark before the space bar
/// counts.
pub const SPACE_DELAY: u64 = 2;

/// The part of the screen that the keys act on.
#[derive(Clone, Copy, Debug, PartialEq, Eq, Structural)]
pub enum Area {
    Timer,
    TasksNotCompleted,
    TasksCompleted,
    TaskAdd,
}

/// A key that was pressed.
#[derive(Clone, Copy, Debug, PartialEq, Eq, Structural)]
pub enum Key {
    Esc,
    Enter,
    Backspace,
    Up,
    Down,
    Left,
    Right,
    Char(char),
    Other,
}

/// Where the user is on the screen, and what was asked of the program.
pub struct Selection {
    pub area: Area,
    pub row: usize,
    pub col: usize,
    pub pause: bool,
    pub should_close: bool,
}

/// The state of the full-screen display.
pub struct TuiRatatuiDisplay {
    pub pomodoro: Pomodoro,
    pub should_close: bool,
    pub current_area: Area,
    pub selected_row: usize,
    pub selected_col: usize,
    pub pause: bool,
    pub new_task_buffer: String,
}

/// The clock with its two buttons.
pub struct TimerWidget {
    pub title: String,
    pub text: String,
    pub selected_col: usize,
    pub padding_top: u16,
    pub focused: bool,
}

/// One line of a list of tasks.
pub struct TaskLine {
    pub text: String,
    pub bold: bool,
}

/// A list of tasks.
pub struct TaskListWidget {
    pub lines: Vec<TaskLine>,
    pub focused: bool,
}

/// All that is shown.
pub struct Screen {
    pub timer: TimerWidget,
    pub not_completed: TaskListWidget,
    pub completed: TaskListWidget,
    pub task_add: Option<String>,
}

/// A part of the terminal: where it begins, counted in lines from above, and
/// how many lines it has.
#[derive(Clone, Copy, Debug, PartialEq, Eq, Structural)]
pub struct Band {
    pub y: u16,
    pub height: u16,
}

/// Where the four areas stand, one below the other.
#[derive(Clone, Copy, Debug, PartialEq, Eq, Structural)]
pub struct Layout {
    pub timer: Band,
    pub not_completed: Band,
    pub completed: Band,
    pub task_add: Band,
}

/// The last row of a list of `len` rows; the first row of an empty list.
pub open spec fn last_row(len: nat) -> usize {
    if len == 0 {
        0
    } else {
        (len - 1) as usize
    }
}

/// Whether the space bar is held off: it was pressed before `SPACE_DELAY`
/// seconds had passed since the mark. `since_mark` is the number of whole
/// seconds since then, if the clock can tell.
pub open spec fn held_off(key: Key, since_mark: Option<u64>) -> bool {
    &&& key == Key::Char(' ')
    &&& since_mark matches Some(secs)
    &&& secs < SPACE_DELAY
}

/// Where the user is after `key`, in a session with `todo` tasks that are not
/// done and `done` tasks that are.
///
/// Escape leaves the entry of a new task, and closes the program anywhere
/// else. The arrows up and down go through the rows of the two lists and
/// from area to area, round in a circle. Left and right choose the button
/// under the clock. The space bar on the first button pauses. A plus sign
/// opens the entry of a new task, and enter closes it.
pub open spec fn moved(at: Selection, key: Key, todo: nat, done: nat) -> Selection {
    match key {
        Key::Esc => if at.area is TaskAdd {
            Selection { area: Area::Timer, row: 0, ..at }
        } else {
            Selection { should_close: true, ..at }
        },
        Key::Char(c) => if c == ' ' {
            if at.area is Timer && at.col == 0 {
                Selection { pause: !at.pause, ..at }
            } else {
                at
            }
        } else if c == '+' {
            Selection { area: Area::TaskAdd, ..at }
        } else {
            at
        },
        Key::Down => match at.area {
            Area::Timer => Selection { area: Area::TasksNotCompleted, ..at },
            Area::TasksNotCompleted => if at.row + 1 < todo {
                Selection { row: (at.row + 1) as usize, ..at }
            } else {
                Selection { area: Area::TasksCompleted, row: 0, ..at }
            },
            Area::TasksCompleted => if at.row + 1 < done {
                Selection { row: (at.row + 1) as usize, ..at }
            } else {
                Selection { area: Area::Timer, row: 0, ..at }
            },
            Area::TaskAdd => at,
        },
        Key::Up => match at.area {
            Area::Timer => Selection { area: Area::TasksCompleted, row: last_row(done), ..at },
            Area::TasksNotCompleted => if at.row > 0 {
                Selection { row: (at.row - 1) as usize, ..at }
            } else {
                Selection { area: Area::Timer, row: 0, ..at }
            },
            Area::TasksCompleted => if at.row > 0 {
                Selection { row: (at.row - 1) as usize, ..at }
            } else {
                Selection { area: Area::TasksNotCompleted, row: last_row(todo), ..at }
            },
            Area::TaskAdd => at,
        },
        Key::Left => if at.area is Timer {
            Selection {
                col: if at.col == 0 {
                    (COL_SIZE - 1) as usize
                } else {
                    (at.col - 1) as usize
                },
                ..at
            }
        } else {
            at
        },
        Key::Right => if at.area is Timer {
            Selection { col: ((at.col + 1) % COL_SIZE as int) as usize, ..at }
        } else {
            at
        },
        Key::Enter => if at.area is TaskAdd {
            Selection { area: Area::Timer, row: 0, ..at }
        } else {
            at
        },
        Key::Backspace => at,
        Key::Other => at,
    }
}

/// The text of the new task after `key`. Outside the entry of a new task no
/// key changes it. In there, a character is put at its end, but for the plus
/// sign; backspace takes the last character off; escape and enter leave it
/// empty.
pub open spec fn typed(buffer: Seq<char>, area: Area, key: Key) -> Seq<char> {
    if !(area is TaskAdd) {
        buffer
    } else {
        match key {
            Key::Esc => Seq::empty(),
            Key::Enter => Seq::empty(),
            Key::Char(c) => if c == '+' {
                buffer
            } else {
                buffer.push(c)
            },
            Key::Backspace => if buffer.len() > 0 {
                buffer.drop_last()
            } else {
                buffer
            },
            _ => buffer,
        }
    }
}

/// Whether `widget` shows the clock of the session `p`: the name of the
/// mode as its title, the period as its text, the button `col` chosen, and
/// `padding` empty lines above.
pub open spec fn shows_timer(
    widget: TimerWidget,
    p: Pomodoro,
    area: Area,
    padding: u16,
    col: usize,
) -> bool {
    &&& widget.title@ == p.timer.label()
    &&& widget.text@ == p.current_timer().face()
    &&& widget.selected_col == col
    &&& widget.padding_top == padding
    &&& widget.focused == (area is Timer)
}

/// Whether `widget` shows the list `tasks`: one line for each task, in their
/// order. While the list is in use, the line at `row` is bold and has the box
/// `[*]`; every other line has the box `plain`.
pub open spec fn shows_list(
    widget: TaskListWidget,
    tasks: Seq<Task>,
    plain: Seq<char>,
    focused: bool,
    row: usize,
) -> bool {
    &&& widget.focused == focused
    &&& widget.lines@.len() == tasks.len()
    &&& forall|i: int|
        0 <= i < tasks.len() ==> {
            let chosen = focused && i == row;
            &&& (#[trigger] widget.lines@[i]).bold == chosen
            &&& widget.lines@[i].text@ == task_line(
                if chosen {
                    "[*] "@
                } else {
                    plain
                },
                tasks[i]@,
            )
        }
}

/// Whether a terminal that begins at line `y` and has `height` lines has room
/// for the four areas.
pub open spec fn spec_fits(y: u16, height: u16) -> bool {
    &&& height / 2 >= 15
    &&& y + 3 * (height / 2 - 15) <= u16::MAX
}

#[verifier::when_used_as_spec(spec_fits)]
pub fn fits(y: u16, height: u16) -> (b: bool)
    ensures
        b == spec_fits(y, height),
{
    let half = height / 2;
    half >= 15 && (y as u32) + 3 * ((half - 15) as u32) <= u16::MAX as u32
}

/// The four areas on a terminal that begins at line `y` and has `height`
/// lines. The clock gets half of the lines less fifteen. The two lists
/// follow below it with as many lines each, and below them the entry of a
/// new task with half as many.
pub fn layout(y: u16, height: u16) -> (areas: Layout)
    requires
        fits(y, height),
    ensures
        areas.timer == (Band { y, height: (height / 2 - 15) as u16 }),
        areas.not_completed == (Band {
            y: (y + areas.timer.height) as u16,
            height: areas.timer.height,
        }),
        areas.completed == (Band {
            y: (y + 2 * areas.timer.height) as u16,
            height: areas.timer.height,
        }),
        areas.task_add == (Band {
            y: (y + 3 * areas.timer.height) as u16,
            height: areas.timer.height / 2,
        }),
{
    let timer = Band { y, height: height / 2 - 15 };
    let not_completed = Band { y: timer.y + timer.height, height: timer.height };
    let completed = Band { y: not_completed.y + not_completed.height, height: timer.height };
    let task_add = Band { y: completed.y + completed.height, height: completed.height / 2 };
    Layout { timer, not_completed, completed, task_add }
}

/// The lines of `tasks` as a list.
fn list_widget(tasks: &Vec<Task>, plain: &str, focused: bool, row: usize) -> (widget:
    TaskListWidget)
    ensures
        shows_list(widget, tasks@, plain@, focused, row),
{
    let mut lines: Vec<TaskLine> = Vec::new();
    let len = tasks.len();
    let mut i: usize = 0;
    while i < len
        invariant
            len == tasks.len(),
            i <= len,
            lines@.len() == i,
            forall|j: int|
                0 <= j < i ==> {
                    let chosen = focused && j == row;
                    &&& (#[trigger] lines@[j]).bold == chosen
                    &&& lines@[j].text@ == task_line(
                        if chosen {
                            "[*] "@
                        } else {
                            plain@
                        },
                        tasks@[j]@,
                    )
                },
        decreases len - i,
    {
        let chosen = focused && i == row;
        let text = if chosen {
            task_line_of("[*] ", &tasks[i])
        } else {
            task_line_of(plain, &tasks[i])
        };
        lines.push(TaskLine { text, bold: chosen });
        i += 1;
    }
    TaskListWidget { lines, focused }
}

impl TuiRatatuiDisplay {
    /// Where the user is.
    pub open spec fn selection(self) -> Selection {
        Selection {
            area: self.current_area,
            row: self.selected_row,
            col: self.selected_col,
            pause: self.pause,
            should_close: self.should_close,
        }
    }

    /// One of the buttons is chosen, and the mode of the session is well
    /// formed.
    pub open spec fn spec_well_formed(&self) -> bool {
        &&& self.selected_col < COL_SIZE
        &&& self.pomodoro.timer.well_formed()
    }

    #[verifier::when_used_as_spec(spec_well_formed)]
    pub fn well_formed(&self) -> (b: bool)
        ensures
            b == self.spec_well_formed(),
    {
        self.selected_col < COL_SIZE && self.pomodoro.timer.well_formed()
    }

    /// Whether `key` asks the session to go on to the next mode: the space
    /// bar, not held off, on the second button under the clock.
    pub open spec fn spec_asks_next_mode(&self, key: Key, since_mark: Option<u64>) -> bool {
        &&& key == Key::Char(' ')
        &&& !held_off(key, since_mark)
        &&& self.current_area is Timer
        &&& self.selected_col == 1
    }

    #[verifier::when_used_as_spec(spec_asks_next_mode)]
    pub fn asks_next_mode(&self, key: Key, since_mark: Option<u64>) -> (b: bool)
        ensures
            b == self.spec_asks_next_mode(key, since_mark),
    {
        let off = match since_mark {
            Some(secs) => secs < SPACE_DELAY,
            None => false,
        };
        match (key, self.current_area) {
            (Key::Char(c), Area::Timer) => c == ' ' && !off && self.selected_col == 1,
            _ => false,
        }
    }

    /// Whether `after` is the session that `key` leaves behind.
    ///
    /// The space bar acts on what is chosen: on the second button under the
    /// clock it goes on to the next mode, on a task that is not done it marks
    /// the task as done, and on a task that is done it marks it as not done.
    /// Enter puts the task that the entry reads as at the end of the list.
    /// No other key touches the session.
    pub open spec fn session_after(self, key: Key, after: Pomodoro) -> bool {
        let before = self.pomodoro;
        if key == Key::Char(' ') && self.current_area is Timer && self.selected_col == 1 {
            after == before.skipped()
        } else if key == Key::Char(' ') && self.current_area is TasksNotCompleted {
            &&& before.same_but_tasks(after)
            &&& after.tasks@ == marked(
                before.tasks@,
                nth_by_completion(before.tasks@, false, self.selected_row as nat),
                true,
            )
        } else if key == Key::Char(' ') && self.current_area is TasksCompleted {
            &&& before.same_but_tasks(after)
            &&& after.tasks@ == marked(
                before.tasks@,
                nth_by_completion(before.tasks@, true, self.selected_row as nat),
                false,
            )
        } else if key == Key::Enter && self.current_area is TaskAdd {
            &&& before.same_but_tasks(after)
            &&& after.tasks@.len() == before.tasks@.len() + 1
            &&& after.tasks@.drop_last() == before.tasks@
            &&& after.tasks@.last()@ == parsed(self.new_task_buffer@)
        } else {
            after == before
        }
    }

    /// Whether `after` is the display that `key` leaves behind.
    pub open spec fn handled(self, key: Key, after: TuiRatatuiDisplay) -> bool {
        &&& after.selection() == moved(
            self.selection(),
            key,
            by_completion(self.pomodoro.tasks@, false).len(),
            by_completion(self.pomodoro.tasks@, true).len(),
        )
        &&& after.new_task_buffer@ == typed(self.new_task_buffer@, self.current_area, key)
        &&& self.session_after(key, after.pomodoro)
    }

    /// A display of `pomodoro` with the clock in use, running, and nothing
    /// typed.
    pub fn new(pomodoro: Pomodoro) -> (display: Self)
        ensures
            display.pomodoro == pomodoro,
            display.selection() == (Selection {
                area: Area::Timer,
                row: 0,
                col: 0,
                pause: false,
                should_close: false,
            }),
            display.new_task_buffer@ == Seq::<char>::empty(),
    {
        Self {
            pomodoro,
            should_close: false,
            pause: false,
            current_area: Area::Timer,
            selected_row: 0,
            selected_col: 0,
            new_task_buffer: String::new(),
        }
    }

    /// The clock of `pomodoro`, with `height` empty lines above it.
    pub fn create_timer_widget(
        pomodoro: &Pomodoro,
        current_area: &Area,
        height: u16,
        selected_col: usize,
    ) -> (widget: TimerWidget)
        requires
            pomodoro.timer.well_formed(),
            selected_col < COL_SIZE,
        ensures
            shows_timer(widget, *pomodoro, *current_area, height, selected_col),
    {
        TimerWidget {
            title: pomodoro.timer_mode_string(),
            text: pomodoro.timer_to_string(),
            selected_col,
            padding_top: height,
            focused: matches!(current_area, Area::Timer),
        }
    }

    /// The list of the tasks that are not done.
    pub fn create_not_completed_widget(
        pomodoro: &Pomodoro,
        current_area: &Area,
        selected_row: usize,
    ) -> (widget: TaskListWidget)
        ensures
            shows_list(
                widget,
                by_completion(pomodoro.tasks@, false),
                "[ ] "@,
                *current_area is TasksNotCompleted,
                selected_row,
            ),
    {
        list_widget(
            &pomodoro.task_get_by_complete(false),
            "[ ] ",
            matches!(current_area, Area::TasksNotCompleted),
            selected_row,
        )
    }

    /// The list of the tasks that are done.
    pub fn create_completed_widget(
        pomodoro: &Pomodoro,
        current_area: &Area,
        selected_row: usize,
    ) -> (widget: TaskListWidget)
        ensures
            shows_list(
                widget,
                by_completion(pomodoro.tasks@, true),
                "[x] "@,
                *current_area is TasksCompleted,
                selected_row,
            ),
    {
        list_widget(
            &pomodoro.task_get_by_complete(true),
            "[x] ",
            matches!(current_area, Area::TasksCompleted),
            selected_row,
        )
    }

    /// The entry of a new task: shown while it is in use, with what was
    /// typed so far.
    pub fn create_add_task(current_area: &Area, new_task_buffer: String) -> (widget: Option<
        String,
    >)
        ensures
            widget == if *current_area is TaskAdd {
                Some(new_task_buffer)
            } else {
                None
            },
    {
        match current_area {
            Area::TaskAdd => Some(new_task_buffer),
            _ => None,
        }
    }

    /// All that is shown on a terminal of `height` lines: the clock, with one
    /// empty line above it for every thirty-two lines of the terminal, the
    /// two lists, and the entry of a new task while it is in use.
    pub fn display(&self, height: u16) -> (screen: Screen)
        requires
            self.well_formed(),
        ensures
            shows_timer(
                screen.timer,
                self.pomodoro,
                self.current_area,
                height / 32,
                self.selected_col,
            ),
            shows_list(
                screen.not_completed,
                by_completion(self.pomodoro.tasks@, false),
                "[ ] "@,
                self.current_area is TasksNotCompleted,
                self.selected_row,
            ),
            shows_list(
                screen.completed,
                by_completion(self.pomodoro.tasks@, true),
                "[x] "@,
                self.current_area is TasksCompleted,
                self.selected_row,
            ),
            screen.task_add == if self.current_area is TaskAdd {
                Some(self.new_task_buffer)
            } else {
                None
            },
    {
        Screen {
            timer: Self::create_timer_widget(
                &self.pomodoro,
                &self.current_area,
                height / 32,
                self.selected_col,
            ),
            not_completed: Self::create_not_completed_widget(
                &self.pomodoro,
                &self.current_area,
                self.selected_row,
            ),
            completed: Self::create_completed_widget(
                &self.pomodoro,
                &self.current_area,
                self.selected_row,
            ),
            task_add: Self::create_add_task(&self.current_area, self.new_task_buffer.clone()),
        }
    }

    /// Takes in one key.
    ///
    /// `since_mark` is the number of whole seconds since the mark was last
    /// set, or `None` where the clock cannot tell. A space bar that is held
    /// off changes nothing, and the result is `true`: the caller sets the mark
    /// anew. Every other key is handled, and the result is `false`.
    pub fn handle_events(&mut self, key: Key, since_mark: Option<u64>) -> (set_mark: bool)
        requires
            old(self).well_formed(),
            old(self).asks_next_mode(key, since_mark) ==> old(self).pomodoro.timer.is_steady(),
        ensures
            set_mark == held_off(key, since_mark),
            set_mark ==> *final(self) == *old(self),
            !set_mark ==> old(self).handled(key, *final(self)),
            final(self).well_formed(),
    {
        match key {
            Key::Esc => match self.current_area {
                Area::TaskAdd => {
                    self.selected_row = 0;
                    self.current_area = Area::Timer;
                    self.new_task_buffer = String::new();
                },
                _ => {
                    self.should_close = true;
                },
            },
            Key::Char(c) => {
                if c == ' ' {
                    if let Some(secs) = since_mark {
                        if secs < SPACE_DELAY {
                            return true;
                        }
                    }
                    match self.current_area {
                        Area::Timer => {
                            if self.selected_col == 0 {
                                self.pause = !self.pause;
                            } else {
                                self.pomodoro.next_mode();
                            }
                        },
                        Area::TasksNotCompleted => {
                            self.pomodoro.task_complete(self.selected_row);
                        },
                        Area::TasksCompleted => {
                            self.pomodoro.task_not_complete(self.selected_row);
                        },
                        Area::TaskAdd => {
                            push_char(&mut self.new_task_buffer, ' ');
                        },
                    }
                } else if c == '+' {
                    self.current_area = Area::TaskAdd;
                } else {
                    match self.current_area {
                        Area::TaskAdd => {
                            push_char(&mut self.new_task_buffer, c);
                        },
                        _ => {},
                    }
                }
            },
            Key::Down => match self.current_area {
                Area::Timer => {
                    self.current_area = Area::TasksNotCompleted;
                },
                Area::TasksNotCompleted => {
                    let len = self.pomodoro.task_get_by_complete(false).len();
                    if len > 0 && self.selected_row < len - 1 {
                        self.selected_row += 1;
                    } else {
                        self.current_area = Area::TasksCompleted;
                        self.selected_row = 0;
                    }
                },
                Area::TasksCompleted => {
                    let len = self.pomodoro.task_get_by_complete(true).len();
                    if len > 0 && self.selected_row < len - 1 {
                        self.selected_row += 1;
                    } else {
                        self.current_area = Area::Timer;
                        self.selected_row = 0;
                    }
                },
                Area::TaskAdd => {},
            },
            Key::Up => match self.current_area {
                Area::Timer => {
                    let len = self.pomodoro.task_get_by_complete(true).len();
                    self.current_area = Area::TasksCompleted;
                    self.selected_row = if len == 0 {
                        0
                    } else {
                        len - 1
                    };
                },
                Area::TasksNotCompleted => {
                    if self.selected_row > 0 {
                        self.selected_row -= 1;
                    } else {
                        self.current_area = Area::Timer;
                        self.selected_row = 0;
                    }
                },
                Area::TasksCompleted => {
                    if self.selected_row > 0 {
                        self.selected_row -= 1;
                    } else {
                        let len = self.pomodoro.task_get_by_complete(false).len();
                        self.current_area = Area::TasksNotCompleted;
                        self.selected_row = if len == 0 {
                            0
                        } else {
                            len - 1
                        };
                    }
                },
                Area::TaskAdd => {},
            },
            Key::Left => match self.current_area {
                Area::Timer => {
                    if self.selected_col == 0 {
                        self.selected_col = COL_SIZE - 1;
                    } else {
                        self.selected_col -= 1;
                    }
                },
                _ => {},
            },
            Key::Right => match self.current_area {
                Area::Timer => {
                    self.selected_col += 1;
                    self.selected_col = self.selected_col % COL_SIZE;
                },
                _ => {},
            },
            Key::Enter => match self.current_area {
                Area::TaskAdd => {
                    let new_task = Task::from_str(self.new_task_buffer.as_str());
                    let ghost before = self.pomodoro.tasks@;
                    self.pomodoro.task_add(new_task);
                    assert(self.pomodoro.tasks@.drop_last() == before);
                    self.new_task_buffer = String::new();
                    self.current_area = Area::Timer;
                    self.selected_row = 0;
                },
                _ => {},
            },
            Key::Backspace => match self.current_area {
                Area::TaskAdd => {
                    let len = self.new_task_buffer.as_str().unicode_len();
                    if len > 0 {
                        let kept = self.new_task_buffer.as_str().substring_char(0, len - 1).to_owned();
                        self.new_task_buffer = kept;
                    }
                },
                _ => {},
            },
            Key::Other => {},
        }
        false
    }
}

} // verus!
