// The dialog of a fresh install, in dialog units: the dialog manager scales them to
// the font, so nothing is computed from pixels. The numbers of the controls are those
// of the module `onboarding`.
100 DIALOGEX 0, 0, 176, 139
STYLE DS_SETFONT | DS_MODALFRAME | DS_CENTER | WS_POPUP | WS_CAPTION | WS_SYSMENU
CAPTION "Install HP Thermal Control"
FONT 9, "Segoe UI", 400, 0, 0x1
BEGIN
    LTEXT           "Required:",-1,7,7,120,9
    CONTROL         "SYSTEM service, started at boot",1011,"Button",BS_CHECKBOX | WS_CHILD | WS_VISIBLE,12,18,157,10
    CONTROL         "Installed to Program Files (admin-only)",1012,"Button",BS_CHECKBOX | WS_CHILD | WS_VISIBLE,12,30,157,10
    CONTROL         "Uninstall entry (Settings > Apps)",1013,"Button",BS_CHECKBOX | WS_CHILD | WS_VISIBLE,12,42,157,10
    LTEXT           "Optional:",-1,7,56,120,9
    AUTOCHECKBOX    "Run the tray at logon",1001,12,67,157,10
    AUTOCHECKBOX    "Start Menu shortcut",1002,12,79,157,10
    AUTOCHECKBOX    "Desktop shortcut",1003,12,91,157,10
    RTEXT           "",1020,7,106,162,9
    DEFPUSHBUTTON   "Install",1,65,118,50,14
    PUSHBUTTON      "Cancel",2,119,118,50,14
END
