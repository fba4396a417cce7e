use vstd::prelude::*;

use crate::console::{App, Command, Event, Key, Mode};
use crate::driver::{Direction, Driver};
use crate::utils::{clear_text, pop_char, push_char};

verus! {

/// The mode that follows `key` in `mode`.
pub open spec fn next_mode(mode: Mode, key: Key) -> Mode {
    match mode {
        Mode::Normal => if key == Key::Char('c') {
            Mode::Control
        } else if key == Key::Char(':') {
            Mode::Buffer
        } else {
            Mode::Normal
        },
        Mode::Control => if key == Key::Esc {
            Mode::Normal
        } else {
            Mode::Control
        },
        Mode::Buffer => if key == Key::Esc || key == Key::Enter {
            Mode::Normal
        } else {
            Mode::Buffer
        },
    }
}

/// The work that `key` in `mode` leaves to the caller.
pub open spec fn command_of(mode: Mode, key: Key) -> Command {
    match mode {
        Mode::Normal => if key == Key::Char('q') {
            Command::Quit
        } else if key == Key::Char('d') {
            Command::Dump
        } else if key == Key::Char('a') {
            Command::RandomPoint
        } else if key == Key::Char('s') {
            Command::Save
        } else {
            Command::Idle
        },
        Mode::Control => match key {
            Key::Left => Command::Jog(Direction::Left),
            Key::Right => Command::Jog(Direction::Right),
            Key::Up => Command::Jog(Direction::Up),
            Key::Down => Command::Jog(Direction::Down),
            Key::Enter => Command::Goto,
            Key::Char(c) => if c == '\\' {
                Command::GotoSmooth
            } else {
                Command::Idle
            },
            _ => Command::Idle,
        },
        Mode::Buffer => Command::Idle,
    }
}

/// The text of the buffer after `key` in `mode`: in buffer mode a character
/// is appended, backspace takes the last one off, delete empties the buffer.
pub open spec fn next_buffer(mode: Mode, key: Key, buffer: Seq<char>) -> Seq<char> {
    if mode == Mode::Buffer {
        match key {
            Key::Char(c) => buffer.push(c),
            Key::Backspace => if buffer.len() > 0 {
                buffer.drop_last()
            } else {
                buffer
            },
            Key::Delete => Seq::empty(),
            _ => buffer,
        }
    } else {
        buffer
    }
}

/// The controller after `key` in `mode`: in control mode eight keys tune it.
pub open spec fn next_driver(mode: Mode, key: Key, driver: Driver) -> Driver {
    if mode == Mode::Control {
        if key == Key::Char('=') {
            driver.with_longer_jog()
        } else if key == Key::Char('-') {
            driver.with_shorter_jog()
        } else if key == Key::Char('[') {
            driver.with_max_lowered()
        } else if key == Key::Char(']') {
            driver.with_max_raised()
        } else if key == Key::Char(';') {
            driver.with_min_lowered()
        } else if key == Key::Char('\'') {
            driver.with_min_raised()
        } else if key == Key::Char(',') {
            driver.with_delay_lowered()
        } else if key == Key::Char('.') {
            driver.with_delay_raised()
        } else {
            driver
        }
    } else {
        driver
    }
}

/// Whether the histories of `post` are those of `pre` after `key`: in normal
/// mode six keys flush or resize one of them, and nothing else touches them.
pub open spec fn histories_follow(pre: App, key: Key, post: App) -> bool {
    if pre.current_mode == Mode::Normal && key == Key::Char('p') {
        pre.positions_flushed(App { current_mode: pre.current_mode, ..post })
    } else if pre.current_mode == Mode::Normal && key == Key::Char('f') {
        pre.output_flushed(App { current_mode: pre.current_mode, ..post })
    } else if pre.current_mode == Mode::Normal && key == Key::Char('=') {
        pre.positions_resized(
            App { current_mode: pre.current_mode, ..post },
            App::grown(pre.prev_positions_size),
        )
    } else if pre.current_mode == Mode::Normal && key == Key::Char('-') {
        pre.positions_resized(
            App { current_mode: pre.current_mode, ..post },
            App::shrunk(pre.prev_positions_size),
        )
    } else if pre.current_mode == Mode::Normal && key == Key::Char(']') {
        pre.output_resized(
            App { current_mode: pre.current_mode, ..post },
            App::grown(pre.command_output_size),
        )
    } else if pre.current_mode == Mode::Normal && key == Key::Char('[') {
        pre.output_resized(
            App { current_mode: pre.current_mode, ..post },
            App::shrunk(pre.command_output_size),
        )
    } else {
        &&& post.prev_positions == pre.prev_positions
        &&& post.prev_positions_size == pre.prev_positions_size
        &&& post.command_output == pre.command_output
        &&& post.command_output_size == pre.command_output_size
    }
}

impl App {
    /// Takes one event from the terminal. A tick changes nothing. A key is
    /// read by the mode that the front end is in: it may change the mode, edit
    /// the buffer, tune the controller, flush or resize a history, or leave
    /// work to the caller, which is returned.
    pub fn handle_input(&mut self, event: Event<Key>) -> (command: Command)
        requires
            old(self).wf(),
        ensures
            final(self).wf(),
            event is Tick ==> command == Command::Idle && *final(self) == *old(self),
            event matches Event::Input(key) ==> {
                &&& command == command_of(old(self).current_mode, key)
                &&& final(self).current_mode == next_mode(old(self).current_mode, key)
                &&& final(self).buffer@ == next_buffer(
                    old(self).current_mode,
                    key,
                    old(self).buffer@,
                )
                &&& final(self).driver == next_driver(old(self).current_mode, key, old(self).driver)
                &&& histories_follow(*old(self), key, *final(self))
            },
    {
        let key: Key = match event {
            Event::Input(key) => key,
            Event::Tick => {
                return Command::Idle;
            },
        };
        match self.current_mode {
            Mode::Normal => match key {
                Key::Esc => {
                    self.current_mode = Mode::Normal;
                    Command::Idle
                },
                Key::Char('c') => {
                    self.current_mode = Mode::Control;
                    Command::Idle
                },
                Key::Char(':') => {
                    self.current_mode = Mode::Buffer;
                    Command::Idle
                },
                Key::Char('q') => Command::Quit,
                Key::Char('d') => Command::Dump,
                Key::Char('a') => Command::RandomPoint,
                Key::Char('s') => Command::Save,
                Key::Char('p') => {
                    self.flush_prev_positions();
                    Command::Idle
                },
                Key::Char('f') => {
                    self.flush_command_output();
                    Command::Idle
                },
                Key::Char('=') => {
                    self.increase_prev_points();
                    Command::Idle
                },
                Key::Char('-') => {
                    self.decrease_prev_points();
                    Command::Idle
                },
                Key::Char(']') => {
                    self.increase_command_ouput();
                    Command::Idle
                },
                Key::Char('[') => {
                    self.decrease_command_output();
                    Command::Idle
                },
                _ => Command::Idle,
            },
            Mode::Control => match key {
                Key::Esc => {
                    self.current_mode = Mode::Normal;
                    Command::Idle
                },
                Key::Left => Command::Jog(Direction::Left),
                Key::Right => Command::Jog(Direction::Right),
                Key::Up => Command::Jog(Direction::Up),
                Key::Down => Command::Jog(Direction::Down),
                Key::Char('\\') => Command::GotoSmooth,
                Key::Char('=') => {
                    self.increase_movement_amount();
                    Command::Idle
                },
                Key::Char('-') => {
                    self.decrease_movement_amount();
                    Command::Idle
                },
                Key::Char('[') => {
                    self.decrease_max_delay();
                    Command::Idle
                },
                Key::Char(']') => {
                    self.increase_max_delay();
                    Command::Idle
                },
                Key::Char(';') => {
                    self.decrease_min_delay();
                    Command::Idle
                },
                Key::Char('\'') => {
                    self.increase_min_delay();
                    Command::Idle
                },
                Key::Char(',') => {
                    self.decrease_delay();
                    Command::Idle
                },
                Key::Char('.') => {
                    self.increase_delay();
                    Command::Idle
                },
                Key::Enter => Command::Goto,
                _ => Command::Idle,
            },
            Mode::Buffer => match key {
                Key::Esc => {
                    self.current_mode = Mode::Normal;
                    Command::Idle
                },
                Key::Enter => {
                    self.current_mode = Mode::Normal;
                    Command::Idle
                },
                Key::Char(c) => {
                    push_char(&mut self.buffer, c);
                    Command::Idle
                },
                Key::Backspace => {
                    pop_char(&mut self.buffer);
                    Command::Idle
                },
                Key::Delete => {
                    clear_text(&mut self.buffer);
                    Command::Idle
                },
                _ => Command::Idle,
            },
        }
    }
}

} // verus!
