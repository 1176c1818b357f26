# lan-mouse

Verified core of the receiving side of a software KVM: it turns the pointer, keyboard and gesture
events of a remote peer into events of two virtual Linux input devices, and decides how an
incoming connection is shown to its user.

- `src/` is the library, verified with Verus.
  - `double`: double-precision numbers as bit patterns, with their exact value as the model;
    order, clamping, rounding.
  - `event`, `input`, `codes`, `plan`: what comes in and what goes out.
  - `device`: the two virtual devices and what they declare.
  - `gesture`: swipes on the virtual touchpad.
  - `emulation`: the state machine from remote events to plans for the devices.
  - `touch`, `laws`: what holds across operations; among others, that the touchpad shows the
    swipe in progress, and that a finished swipe leaves nothing on it.
  - `incoming_object`, `incoming_row`: data and presentation of incoming connections.
- `app/` is ordinary Rust around it: the uinput devices, floating-point products and sums, and the
  GTK widgets.
- `tests/` runs the library, with the real `evdev` crate underneath.
